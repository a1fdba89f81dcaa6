use chrono::NaiveDateTime;
use std::sync::Arc;
use taxonomy::errors::AiError;
use taxonomy::models::{Asset, AssetTaxonomyAssignment, Category, Taxonomy, TaxonomyWithCategories};
use taxonomy::tools::asset_taxonomy_assignments::{
    resolve_symbol, GetAssetTaxonomyAssignmentsArgs, GetAssetTaxonomyAssignmentsOutput,
    GetAssetTaxonomyAssignmentsTool,
};
use taxonomy::tools::definition::{ParameterKind, ValueKind};

/// The services of a test: assets, assignments and taxonomies held in memory.
struct Services {
    assets: Vec<(String, String)>,
    assignments: Vec<AssetTaxonomyAssignment>,
    taxonomies: Vec<(String, String, Vec<(String, String)>)>,
}

fn make_asset(id: &str, symbol: &str) -> (String, String) {
    (id.to_string(), symbol.to_string())
}

impl Services {
    fn search_by_symbol(&self, symbol: &str) -> Result<Vec<Asset>, String> {
        Ok(self
            .assets
            .iter()
            .filter(|(_, s)| s.eq_ignore_ascii_case(symbol))
            .map(|(id, s)| Asset { id: id.clone(), instrument_symbol: Some(s.clone()) })
            .collect())
    }

    fn get_asset_assignments(&self, _asset_id: &str) -> Result<Vec<AssetTaxonomyAssignment>, String> {
        Ok(self.assignments.clone())
    }

    fn get_taxonomies_with_categories(&self) -> Result<Vec<TaxonomyWithCategories>, String> {
        Ok(self
            .taxonomies
            .iter()
            .map(|(id, name, categories)| TaxonomyWithCategories {
                taxonomy: make_taxonomy(id, name),
                categories: categories.iter().map(|(c, n)| make_category(c, id, n)).collect(),
            })
            .collect())
    }
}

fn make_taxonomy(id: &str, name: &str) -> Taxonomy {
    let now = NaiveDateTime::default();
    Taxonomy {
        id: id.to_string(),
        name: name.to_string(),
        color: "#ffffff".to_string(),
        description: None,
        is_system: false,
        is_single_select: true,
        sort_order: 0,
        created_at: now,
        updated_at: now,
    }
}

fn make_category(id: &str, taxonomy_id: &str, name: &str) -> Category {
    let now = NaiveDateTime::default();
    Category {
        id: id.to_string(),
        taxonomy_id: taxonomy_id.to_string(),
        parent_id: None,
        name: name.to_string(),
        key: id.to_string(),
        color: "#808080".to_string(),
        description: None,
        sort_order: 0,
        created_at: now,
        updated_at: now,
    }
}

fn make_assignment(
    asset_id: &str,
    taxonomy_id: &str,
    category_id: &str,
    weight: i32,
) -> AssetTaxonomyAssignment {
    AssetTaxonomyAssignment {
        id: format!("{}-{}-{}", asset_id, taxonomy_id, category_id),
        asset_id: asset_id.to_string(),
        taxonomy_id: taxonomy_id.to_string(),
        category_id: category_id.to_string(),
        weight,
        source: "manual".to_string(),
        created_at: NaiveDateTime::default(),
        updated_at: NaiveDateTime::default(),
    }
}

fn call(
    services: Services,
    symbol: &str,
    taxonomy_id: Option<&str>,
) -> Result<GetAssetTaxonomyAssignmentsOutput, AiError> {
    let tool = GetAssetTaxonomyAssignmentsTool::new(Arc::new(services));
    let env = tool.env();
    let search = tool.call(GetAssetTaxonomyAssignmentsArgs {
        symbol: symbol.to_string(),
        taxonomy_id: taxonomy_id.map(|t| t.to_string()),
    });
    let found = env.search_by_symbol(&search.args.symbol);
    let search = search.assets_found(found)?;
    let rows = env.get_asset_assignments(&search.asset_id);
    let search = search.assignments_found(rows)?;
    search.taxonomies_found(env.get_taxonomies_with_categories())
}

fn services_with_assets(assets: Vec<(String, String)>) -> Services {
    Services { assets, assignments: vec![], taxonomies: vec![] }
}

#[test]
fn symbol_resolver_no_match_returns_error() {
    let svc = services_with_assets(vec![]);
    let result = resolve_symbol(svc.search_by_symbol("UNKNOWN"), "UNKNOWN");
    assert!(result.is_err());
    let error = result.unwrap_err();
    let msg = error.message();
    assert!(msg.contains("Asset not found for symbol 'UNKNOWN'"), "got: {msg}");
}

#[test]
fn symbol_resolver_single_match_returns_asset_id() {
    let svc = services_with_assets(vec![make_asset("AAPL", "AAPL")]);
    let result = resolve_symbol(svc.search_by_symbol("AAPL"), "AAPL");
    assert!(result.is_ok());
    assert_eq!(result.unwrap(), "AAPL");
}

#[test]
fn symbol_resolver_multiple_matches_returns_ambiguous_error() {
    let a1 = make_asset("VWRL", "VWRL");
    let a2 = make_asset("VWRL.MI", "VWRL");
    let svc = services_with_assets(vec![a1, a2]);
    let result = resolve_symbol(svc.search_by_symbol("VWRL"), "VWRL");
    assert!(result.is_err());
    let error = result.unwrap_err();
    let msg = error.message();
    assert!(msg.contains("Ambiguous symbol 'VWRL'"), "got: {msg}");
    assert!(msg.contains("exchange suffix"), "got: {msg}");
}

#[test]
fn tool_returns_enriched_assignments() {
    let result = call(
        Services {
            assets: vec![make_asset("VWRL.MI", "VWRL.MI")],
            assignments: vec![make_assignment("VWRL.MI", "regions", "EUROPE", 10000)],
            taxonomies: vec![(
                "regions".to_string(),
                "Regions".to_string(),
                vec![("EUROPE".to_string(), "Europe".to_string())],
            )],
        },
        "VWRL.MI",
        None,
    );

    assert!(result.is_ok(), "tool call failed: {:?}", result.err());
    let output = result.unwrap();
    assert_eq!(output.symbol, "VWRL.MI");
    assert_eq!(output.asset_id, "VWRL.MI");
    assert_eq!(output.assignments.len(), 1);

    let a = &output.assignments[0];
    assert_eq!(a.taxonomy_id, "regions");
    assert_eq!(a.taxonomy_name, "Regions");
    assert_eq!(a.category_id, "EUROPE");
    assert_eq!(a.category_name, "Europe");
    assert_eq!(a.weight_basis_points, 10000);
    assert_eq!(a.source, "manual");
}

#[test]
fn resolver_messages_are_exact() {
    let none = resolve_symbol(Ok(vec![]), "X Y");
    assert_eq!(none.unwrap_err().message(), "Asset not found for symbol 'X Y'");
    let svc = services_with_assets(vec![make_asset("1", "vwrl"), make_asset("2", "VWRL"), make_asset("3", "Vwrl")]);
    let many = resolve_symbol(svc.search_by_symbol("VWRL"), "VWRL");
    assert_eq!(
        many.unwrap_err().message(),
        "Ambiguous symbol 'VWRL', please specify with exchange suffix (e.g. 'VWRL.MI')"
    );
    let failed = resolve_symbol(Err("search is down".to_string()), "VWRL");
    assert_eq!(failed.unwrap_err().message(), "search is down");
}

#[test]
fn resolver_gives_the_id_and_not_the_symbol() {
    let svc = services_with_assets(vec![make_asset("asset-7", "AAPL")]);
    let result = resolve_symbol(svc.search_by_symbol("aapl"), "aapl");
    assert_eq!(result.unwrap(), "asset-7");
}

fn two_taxonomies() -> Services {
    Services {
        assets: vec![make_asset("asset-1", "AAPL")],
        assignments: vec![
            make_assignment("asset-1", "regions", "EU", 6000),
            make_assignment("asset-1", "sectors", "TECH", 10000),
            make_assignment("asset-1", "regions", "GONE", 4000),
            make_assignment("asset-1", "unknown", "TECH", 1),
        ],
        taxonomies: vec![
            (
                "regions".to_string(),
                "Regions".to_string(),
                vec![("EU".to_string(), "Europe".to_string())],
            ),
            (
                "sectors".to_string(),
                "Sectors".to_string(),
                vec![("TECH".to_string(), "Technology".to_string())],
            ),
        ],
    }
}

#[test]
fn without_a_filter_all_rows_are_shown_in_order() {
    let output = call(two_taxonomies(), "AAPL", None).unwrap();
    assert_eq!(output.symbol, "AAPL");
    assert_eq!(output.asset_id, "asset-1");
    let shown: Vec<(&str, &str, i32)> = output
        .assignments
        .iter()
        .map(|a| (a.taxonomy_name.as_str(), a.category_name.as_str(), a.weight_basis_points))
        .collect();
    assert_eq!(
        shown,
        vec![
            ("Regions", "Europe", 6000),
            ("Sectors", "Technology", 10000),
            ("Regions", "GONE", 4000),
            ("unknown", "TECH", 1),
        ]
    );
}

#[test]
fn filter_keeps_the_rows_of_one_taxonomy() {
    let output = call(two_taxonomies(), "AAPL", Some("regions")).unwrap();
    let shown: Vec<(&str, &str)> = output
        .assignments
        .iter()
        .map(|a| (a.taxonomy_id.as_str(), a.category_id.as_str()))
        .collect();
    assert_eq!(shown, vec![("regions", "EU"), ("regions", "GONE")]);
    let all = call(two_taxonomies(), "AAPL", None).unwrap();
    let kept: Vec<&str> = all
        .assignments
        .iter()
        .filter(|a| a.taxonomy_id == "regions")
        .map(|a| a.category_id.as_str())
        .collect();
    assert_eq!(kept, vec!["EU", "GONE"]);
    assert!(call(two_taxonomies(), "AAPL", Some("none")).unwrap().assignments.is_empty());
}

#[test]
fn later_record_with_the_same_id_gives_the_name() {
    let mut services = two_taxonomies();
    services.taxonomies.push((
        "regions".to_string(),
        "Regions, revised".to_string(),
        vec![
            ("EU".to_string(), "Old Europe".to_string()),
            ("EU".to_string(), "New Europe".to_string()),
        ],
    ));
    let output = call(services, "AAPL", Some("regions")).unwrap();
    assert_eq!(output.assignments[0].taxonomy_name, "Regions, revised");
    assert_eq!(output.assignments[0].category_name, "New Europe");
}

#[test]
fn failures_of_the_services_are_passed_on() {
    let tool = GetAssetTaxonomyAssignmentsTool::new(Arc::new(()));
    let start = |symbol: &str| {
        tool.clone().call(GetAssetTaxonomyAssignmentsArgs {
            symbol: symbol.to_string(),
            taxonomy_id: None,
        })
    };
    let one = || Ok(vec![Asset { id: "a".to_string(), instrument_symbol: None }]);
    let error = start("S").assets_found(Err("no assets".to_string())).err().unwrap();
    assert_eq!(error.message(), "no assets");
    let error = start("S").assets_found(one()).ok().unwrap();
    let error = error.assignments_found(Err("no rows".to_string())).err().unwrap();
    assert_eq!(error.message(), "no rows");
    let search = start("S").assets_found(one()).ok().unwrap();
    let search = search.assignments_found(Ok(vec![])).ok().unwrap();
    let error = search.taxonomies_found(Err("no names".to_string())).unwrap_err();
    assert_eq!(error.message(), "no names");
}

#[test]
fn definition_of_the_reading_tool() {
    let definition = GetAssetTaxonomyAssignmentsTool::new(Arc::new(())).definition();
    assert_eq!(definition.name, "get_asset_taxonomy_assignments");
    assert_eq!(
        definition.description,
        "Get taxonomy assignments for an asset. Returns how the asset is classified across taxonomies (regions, sectors, asset classes, etc.). Optionally filter to a single taxonomy."
    );
    assert_eq!(definition.parameters.len(), 2);
    let symbol = &definition.parameters[0];
    assert_eq!(symbol.name, "symbol");
    assert_eq!(symbol.description, "Ticker symbol for the asset (e.g. 'AAPL', 'VWRL.MI')");
    assert!(symbol.required);
    assert!(matches!(symbol.kind, ParameterKind::Value(ValueKind::Text)));
    let taxonomy_id = &definition.parameters[1];
    assert_eq!(taxonomy_id.name, "taxonomyId");
    assert_eq!(
        taxonomy_id.description,
        "Optional: taxonomy ID to filter results (use list_taxonomies to discover IDs)"
    );
    assert!(!taxonomy_id.required);
    assert!(matches!(taxonomy_id.kind, ParameterKind::Value(ValueKind::Text)));
}
