use chrono::NaiveDateTime;
use std::sync::{Arc, Mutex};
use taxonomy::errors::AiError;
use taxonomy::models::{
    Asset, AssetTaxonomyAssignment, Category, NewAssetTaxonomyAssignment, Taxonomy,
    TaxonomyWithCategories,
};
use taxonomy::tools::definition::{ParameterKind, ValueKind};
use taxonomy::tools::set_asset_taxonomy_assignments::{
    validate_weights, AssignmentInput, SetAssetTaxonomyAssignmentsArgs,
    SetAssetTaxonomyAssignmentsOutput, SetAssetTaxonomyAssignmentsTool,
};

fn input(cat: &str, weight: i32) -> AssignmentInput {
    AssignmentInput { category_id: cat.to_string(), weight_basis_points: weight }
}

fn args(
    symbol: &str,
    taxonomy_id: &str,
    assignments: Vec<AssignmentInput>,
) -> SetAssetTaxonomyAssignmentsArgs {
    SetAssetTaxonomyAssignmentsArgs {
        symbol: symbol.to_string(),
        taxonomy_id: taxonomy_id.to_string(),
        assignments,
    }
}

#[test]
fn validation_rejects_negative_weight() {
    let err = validate_weights(&[input("US", -1)]).unwrap_err();
    assert!(
        err.message().contains("weight_basis_points must be >= 0"),
        "got: {err:?}"
    );
}

#[test]
fn validation_rejects_weight_above_10000() {
    let err = validate_weights(&[input("US", 10001)]).unwrap_err();
    assert!(
        err.message().contains("weight_basis_points must be <= 10000"),
        "got: {err:?}"
    );
}

#[test]
fn validation_rejects_sum_above_10000() {
    let err = validate_weights(&[input("US", 6000), input("EU", 5000)]).unwrap_err();
    assert!(err.message().contains("exceeds 10000"), "got: {err:?}");
}

#[test]
fn validation_accepts_partial_allocation() {
    let total = validate_weights(&[input("US", 6000), input("EU", 3000)]).unwrap();
    assert_eq!(total, 9000);
}

#[test]
fn validation_accepts_full_allocation() {
    let total = validate_weights(&[input("US", 6000), input("EU", 4000)]).unwrap();
    assert_eq!(total, 10000);
}

#[test]
fn validation_accepts_empty_list() {
    let total = validate_weights(&[]).unwrap();
    assert_eq!(total, 0);
}

/// Services that keep the assets and catch what is stored.
struct MockServices {
    asset: (String, String),
    assignments: Mutex<Vec<AssetTaxonomyAssignment>>,
    categories: Vec<(String, String)>,
}

impl MockServices {
    fn search_by_symbol(&self, symbol: &str) -> Result<Vec<Asset>, String> {
        if self.asset.1.eq_ignore_ascii_case(symbol) {
            Ok(vec![Asset {
                id: self.asset.0.clone(),
                instrument_symbol: Some(self.asset.1.clone()),
            }])
        } else {
            Ok(vec![])
        }
    }

    fn replace_asset_assignments(
        &self,
        asset_id: &str,
        taxonomy_id: &str,
        assignments: Vec<NewAssetTaxonomyAssignment>,
    ) -> Result<Vec<AssetTaxonomyAssignment>, String> {
        let persisted: Vec<AssetTaxonomyAssignment> = assignments
            .into_iter()
            .enumerate()
            .map(|(i, a)| AssetTaxonomyAssignment {
                id: format!("row-{i}"),
                asset_id: asset_id.to_string(),
                taxonomy_id: taxonomy_id.to_string(),
                category_id: a.category_id,
                weight: a.weight,
                source: a.source,
                created_at: NaiveDateTime::default(),
                updated_at: NaiveDateTime::default(),
            })
            .collect();
        *self.assignments.lock().unwrap() = persisted.clone();
        Ok(persisted)
    }

    fn get_taxonomies_with_categories(&self) -> Result<Vec<TaxonomyWithCategories>, String> {
        let now = NaiveDateTime::default();
        Ok(self
            .categories
            .iter()
            .map(|(id, name)| TaxonomyWithCategories {
                taxonomy: Taxonomy {
                    id: format!("taxonomy of {id}"),
                    name: "T".to_string(),
                    color: "#ffffff".to_string(),
                    description: None,
                    is_system: false,
                    is_single_select: false,
                    sort_order: 0,
                    created_at: now,
                    updated_at: now,
                },
                categories: vec![Category {
                    id: id.clone(),
                    taxonomy_id: format!("taxonomy of {id}"),
                    parent_id: None,
                    name: name.clone(),
                    key: id.clone(),
                    color: "#808080".to_string(),
                    description: None,
                    sort_order: 0,
                    created_at: now,
                    updated_at: now,
                }],
            })
            .collect())
    }
}

fn make_env_with_asset(id: &str, symbol: &str) -> Arc<MockServices> {
    Arc::new(MockServices {
        asset: (id.to_string(), symbol.to_string()),
        assignments: Mutex::new(vec![]),
        categories: vec![],
    })
}

fn call(
    tool: &SetAssetTaxonomyAssignmentsTool<MockServices>,
    args: SetAssetTaxonomyAssignmentsArgs,
) -> Result<SetAssetTaxonomyAssignmentsOutput, AiError> {
    let env = tool.env();
    let request = tool.call(args)?;
    let found = env.search_by_symbol(request.symbol());
    let (request, pending) = request.assets_found(found)?;
    let stored = env.replace_asset_assignments(
        &request.asset_id,
        &request.taxonomy_id,
        request.assignments,
    );
    pending.assignments_replaced(stored)?.taxonomies_found(env.get_taxonomies_with_categories())
}

#[test]
fn tool_unknown_symbol_returns_error() {
    let env = make_env_with_asset("AAPL", "AAPL");
    let tool = SetAssetTaxonomyAssignmentsTool::new(env);
    let result = call(&tool, args("UNKNOWN", "regions", vec![input("US", 5000)]));
    assert!(result.is_err());
    assert!(
        result.unwrap_err().message().contains("Asset not found"),
        "expected 'Asset not found'"
    );
}

#[test]
fn tool_rejects_invalid_weights_before_db() {
    let svc = make_env_with_asset("AAPL", "AAPL");
    let tool = SetAssetTaxonomyAssignmentsTool::new(svc.clone());
    let result = call(&tool, args("AAPL", "regions", vec![input("US", -1)]));
    assert!(result.is_err());
    assert!(svc.assignments.lock().unwrap().is_empty());
}

#[test]
fn tool_successful_path_rows_have_source_ai() {
    let env = make_env_with_asset("AAPL", "AAPL");
    let tool = SetAssetTaxonomyAssignmentsTool::new(env);
    let result =
        call(&tool, args("AAPL", "regions", vec![input("US", 6000), input("EU", 4000)])).unwrap();
    assert_eq!(result.assignments.len(), 2);
    assert!(result.assignments.iter().all(|a| a.source == "ai"));
    assert_eq!(result.unallocated_basis_points, 0);
}

#[test]
fn tool_partial_allocation_reports_unallocated() {
    let env = make_env_with_asset("AAPL", "AAPL");
    let tool = SetAssetTaxonomyAssignmentsTool::new(env);
    let result = call(&tool, args("AAPL", "regions", vec![input("US", 7000)])).unwrap();
    assert_eq!(result.unallocated_basis_points, 3000);
}

#[test]
fn tool_empty_assignments_clears_and_reports_fully_unallocated() {
    let env = make_env_with_asset("AAPL", "AAPL");
    let tool = SetAssetTaxonomyAssignmentsTool::new(env);
    let result = call(&tool, args("AAPL", "regions", vec![])).unwrap();
    assert!(result.assignments.is_empty());
    assert_eq!(result.unallocated_basis_points, 10000);
}

#[test]
fn validation_messages_are_exact() {
    let message = |inputs: &[AssignmentInput]| validate_weights(inputs).unwrap_err().message().to_string();
    assert_eq!(
        message(&[input("US", -1)]),
        "weight_basis_points must be >= 0, got -1 for category 'US'"
    );
    assert_eq!(
        message(&[input("EU", i32::MIN)]),
        "weight_basis_points must be >= 0, got -2147483648 for category 'EU'"
    );
    assert_eq!(
        message(&[input("EU", 10001)]),
        "weight_basis_points must be <= 10000, got 10001 for category 'EU'"
    );
    assert_eq!(
        message(&[input("US", 6000), input("EU", 5000)]),
        "Total weight_basis_points (11000) exceeds 10000 (100%)"
    );
}

#[test]
fn validation_reports_the_first_bad_weight() {
    let error = validate_weights(&[
        input("A", 9999),
        input("B", 20000),
        input("C", -5),
        input("D", 9999),
    ]);
    assert_eq!(
        error.unwrap_err().message(),
        "weight_basis_points must be <= 10000, got 20000 for category 'B'"
    );
}

#[test]
fn validation_accepts_the_bounds() {
    assert_eq!(validate_weights(&[input("A", 0)]).unwrap(), 0);
    assert_eq!(validate_weights(&[input("A", 10000), input("B", 0)]).unwrap(), 10000);
    assert!(validate_weights(&[input("A", 10000), input("B", 1)]).is_err());
}

#[test]
fn validation_of_a_total_beyond_the_range_of_weights() {
    let inputs: Vec<AssignmentInput> = (0..300_000).map(|_| input("A", 10000)).collect();
    assert_eq!(
        validate_weights(&inputs).unwrap_err().message(),
        "Total weight_basis_points (3000000000) exceeds 10000 (100%)"
    );
}

#[test]
fn replacement_is_asked_for_the_resolved_asset() {
    let tool = SetAssetTaxonomyAssignmentsTool::new(make_env_with_asset("asset-1", "AAPL")).clone();
    let request = tool
        .call(args("AAPL", "regions", vec![input("EU", 2500), input("US", 1)]))
        .ok()
        .unwrap();
    assert_eq!(request.symbol(), "AAPL");
    let found = tool.env().search_by_symbol("aapl");
    let (request, _) = request.assets_found(found).ok().unwrap();
    assert_eq!(request.asset_id, "asset-1");
    assert_eq!(request.taxonomy_id, "regions");
    assert_eq!(request.assignments.len(), 2);
    let first = &request.assignments[0];
    assert!(first.id.is_none());
    assert_eq!(first.asset_id, "asset-1");
    assert_eq!(first.taxonomy_id, "regions");
    assert_eq!(first.category_id, "EU");
    assert_eq!(first.weight, 2500);
    assert_eq!(first.source, "ai");
    assert_eq!(request.assignments[1].category_id, "US");
    assert_eq!(request.assignments[1].weight, 1);
}

#[test]
fn stored_rows_are_shown_with_names_from_any_taxonomy() {
    let env = Arc::new(MockServices {
        asset: ("a".to_string(), "AAPL".to_string()),
        assignments: Mutex::new(vec![]),
        categories: vec![
            ("EU".to_string(), "Europe".to_string()),
            ("US".to_string(), "United States".to_string()),
            ("EU".to_string(), "European Union".to_string()),
        ],
    });
    let tool = SetAssetTaxonomyAssignmentsTool::new(env.clone());
    let output = call(
        &tool,
        args("AAPL", "regions", vec![input("US", 6000), input("EU", 3000), input("XX", 500)]),
    )
    .unwrap();
    let shown: Vec<(&str, &str, i32)> = output
        .assignments
        .iter()
        .map(|a| (a.category_id.as_str(), a.category_name.as_str(), a.weight_basis_points))
        .collect();
    assert_eq!(
        shown,
        vec![("US", "United States", 6000), ("EU", "European Union", 3000), ("XX", "XX", 500)]
    );
    let stored: i32 = env.assignments.lock().unwrap().iter().map(|a| a.weight).sum();
    assert_eq!(stored + output.unallocated_basis_points, 10000);
}

#[test]
fn failures_of_services_end_the_call() {
    let tool = SetAssetTaxonomyAssignmentsTool::new(make_env_with_asset("a", "AAPL"));
    let start = || tool.call(args("AAPL", "regions", vec![input("US", 1)])).ok().unwrap();
    let error = start().assets_found(Err("no assets".to_string())).err().unwrap();
    assert_eq!(error.message(), "no assets");
    let found = || tool.env().search_by_symbol("AAPL");
    let (_, pending) = start().assets_found(found()).ok().unwrap();
    let error = pending.assignments_replaced(Err("not stored".to_string())).err().unwrap();
    assert_eq!(error.message(), "not stored");
    let (_, pending) = start().assets_found(found()).ok().unwrap();
    let stored = pending.assignments_replaced(Ok(vec![])).ok().unwrap();
    let error = stored.taxonomies_found(Err("no names".to_string())).unwrap_err();
    assert_eq!(error.message(), "no names");
}

#[test]
fn definition_of_the_replacing_tool() {
    let definition =
        SetAssetTaxonomyAssignmentsTool::new(make_env_with_asset("a", "A")).definition();
    assert_eq!(definition.name, "set_asset_taxonomy_assignments");
    assert_eq!(
        definition.description,
        "Atomically replace all taxonomy assignments for an asset within a given taxonomy. \
         Weights are in basis points (10000 = 100%). Partial allocation is allowed; the response \
         includes unallocated_basis_points. Pass an empty assignments list to clear all assignments. \
         Example: [{\"categoryId\": \"US\", \"weightBasisPoints\": 6000}, {\"categoryId\": \"EU\", \"weightBasisPoints\": 4000}]"
    );
    let parameters = &definition.parameters;
    let names: Vec<&str> = parameters.iter().map(|p| p.name.as_str()).collect();
    assert_eq!(names, vec!["symbol", "taxonomyId", "assignments"]);
    assert!(parameters.iter().all(|p| p.required));
    assert_eq!(parameters[0].description, "Ticker symbol for the asset (e.g. 'AAPL', 'VWRL.MI')");
    assert_eq!(
        parameters[1].description,
        "Taxonomy ID to replace assignments for (use list_taxonomies to discover IDs)"
    );
    assert!(matches!(parameters[1].kind, ParameterKind::Value(ValueKind::Text)));
    assert_eq!(
        parameters[2].description,
        "New assignment rows. Empty array clears all assignments."
    );
    match &parameters[2].kind {
        ParameterKind::Rows(fields) => {
            assert_eq!(fields.len(), 2);
            assert_eq!(fields[0].name, "categoryId");
            assert_eq!(fields[0].description, "Category ID within the taxonomy");
            assert_eq!(fields[0].kind, ValueKind::Text);
            assert_eq!(fields[1].name, "weightBasisPoints");
            assert_eq!(
                fields[1].description,
                "Weight in basis points (0–10000, where 10000 = 100%)"
            );
            assert_eq!(fields[1].kind, ValueKind::Integer);
        }
        other => panic!("expected rows, got {other:?}"),
    }
}
