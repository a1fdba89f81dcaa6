use chrono::NaiveDateTime;
use std::sync::{Arc, Mutex};
use taxonomy::assignments::{AssignmentStep, ReplacementStep, RestorationStep};
use taxonomy::errors::Error;
use taxonomy::models::{
    Asset, AssetTaxonomyAssignment, Category, NewAssetTaxonomyAssignment, Taxonomy,
    TaxonomyWithCategories,
};
use taxonomy::taxonomy_service::TaxonomyService;
use taxonomy::tools::asset_taxonomy_assignments::{
    GetAssetTaxonomyAssignmentsArgs, GetAssetTaxonomyAssignmentsOutput,
    GetAssetTaxonomyAssignmentsTool,
};
use taxonomy::tools::set_asset_taxonomy_assignments::{
    AssignmentInput, SetAssetTaxonomyAssignmentsArgs, SetAssetTaxonomyAssignmentsTool,
};

/// A store of assignments in memory.
#[derive(Default)]
struct MockTaxonomyRepo {
    assignments: Mutex<Vec<AssetTaxonomyAssignment>>,
    single_select: Vec<String>,
    calls: Mutex<Vec<String>>,
    /// The calls that fail, counted from one.
    failing: Vec<usize>,
}

impl MockTaxonomyRepo {
    fn with_assignments(assignments: Vec<AssetTaxonomyAssignment>) -> Self {
        Self { assignments: Mutex::new(assignments), ..Default::default() }
    }

    fn get_taxonomy(&self, id: &str) -> Result<Option<Taxonomy>, Error> {
        let now = NaiveDateTime::default();
        if !self.single_select.iter().any(|t| t == id) {
            return Ok(None);
        }
        Ok(Some(Taxonomy {
            id: id.to_string(),
            name: id.to_string(),
            color: "#ffffff".to_string(),
            description: None,
            is_system: false,
            is_single_select: true,
            sort_order: 0,
            created_at: now,
            updated_at: now,
        }))
    }

    fn get_asset_assignments(&self, asset_id: &str) -> Result<Vec<AssetTaxonomyAssignment>, Error> {
        Ok(self
            .assignments
            .lock()
            .unwrap()
            .iter()
            .filter(|a| a.asset_id == asset_id)
            .cloned()
            .collect())
    }

    fn upsert_assignment(
        &self,
        assignment: NewAssetTaxonomyAssignment,
    ) -> Result<AssetTaxonomyAssignment, Error> {
        let mut calls = self.calls.lock().unwrap();
        calls.push(format!("upsert {}", assignment.category_id));
        if self.failing.contains(&calls.len()) {
            return Err(Error::Unexpected("disk full".to_string()));
        }
        let id = assignment.id.clone().unwrap_or_else(|| format!("row-{}", calls.len()));
        let persisted = AssetTaxonomyAssignment {
            id: id.clone(),
            asset_id: assignment.asset_id.clone(),
            taxonomy_id: assignment.taxonomy_id.clone(),
            category_id: assignment.category_id.clone(),
            weight: assignment.weight,
            source: assignment.source.clone(),
            created_at: NaiveDateTime::default(),
            updated_at: NaiveDateTime::default(),
        };
        let mut guard = self.assignments.lock().unwrap();
        guard.retain(|a| a.id != id);
        guard.push(persisted.clone());
        Ok(persisted)
    }

    fn delete_asset_assignments(&self, asset_id: &str, taxonomy_id: &str) -> Result<usize, Error> {
        let mut calls = self.calls.lock().unwrap();
        calls.push(format!("clear {asset_id} {taxonomy_id}"));
        if self.failing.contains(&calls.len()) {
            return Err(Error::Unexpected("locked".to_string()));
        }
        let mut guard = self.assignments.lock().unwrap();
        let before = guard.len();
        guard.retain(|a| !(a.asset_id == asset_id && a.taxonomy_id == taxonomy_id));
        Ok(before - guard.len())
    }
}

fn make_assignment(
    asset_id: &str,
    taxonomy_id: &str,
    category_id: &str,
    weight: i32,
) -> AssetTaxonomyAssignment {
    AssetTaxonomyAssignment {
        id: format!("{}-{}-{}", asset_id, taxonomy_id, category_id),
        asset_id: asset_id.to_string(),
        taxonomy_id: taxonomy_id.to_string(),
        category_id: category_id.to_string(),
        weight,
        source: "manual".to_string(),
        created_at: NaiveDateTime::default(),
        updated_at: NaiveDateTime::default(),
    }
}

fn new_assignment(
    asset_id: &str,
    taxonomy_id: &str,
    category_id: &str,
    weight: i32,
) -> NewAssetTaxonomyAssignment {
    NewAssetTaxonomyAssignment {
        id: None,
        asset_id: asset_id.to_string(),
        taxonomy_id: taxonomy_id.to_string(),
        category_id: category_id.to_string(),
        weight,
        source: "ai".to_string(),
    }
}

fn make_service(repo: MockTaxonomyRepo) -> TaxonomyService<MockTaxonomyRepo> {
    TaxonomyService::new(Arc::new(repo))
}

fn replace_asset_assignments(
    svc: &TaxonomyService<MockTaxonomyRepo>,
    asset_id: &str,
    taxonomy_id: &str,
    assignments: Vec<NewAssetTaxonomyAssignment>,
) -> Result<Vec<AssetTaxonomyAssignment>, Error> {
    let repo = svc.repository();
    let lookup = svc.replace_asset_assignments(asset_id, taxonomy_id, assignments);
    let found = repo.get_asset_assignments(&lookup.asset_id);
    let clearing = lookup.assignments_found(found)?;
    let answer = repo.delete_asset_assignments(&clearing.asset_id, &clearing.taxonomy_id);
    let mut replacement = clearing.cleared(answer)?;
    let mut restoration = loop {
        match replacement.next() {
            ReplacementStep::Done(rows) => return Ok(rows),
            ReplacementStep::Store { assignment, rest } => {
                match rest.assignment_stored(repo.upsert_assignment(assignment)) {
                    Ok(rest) => replacement = rest,
                    Err(failed) => break failed,
                }
            }
        }
    };
    loop {
        restoration = match restoration.next() {
            RestorationStep::Clear { asset_id, taxonomy_id, rest } => {
                let _ = repo.delete_asset_assignments(&asset_id, &taxonomy_id);
                rest
            }
            RestorationStep::Store { assignment, rest } => {
                let _ = repo.upsert_assignment(assignment);
                rest
            }
            RestorationStep::Failed(error) => return Err(error),
        };
    }
}

fn assign_asset_to_category(
    svc: &TaxonomyService<MockTaxonomyRepo>,
    assignment: NewAssetTaxonomyAssignment,
) -> Result<AssetTaxonomyAssignment, Error> {
    let repo = svc.repository();
    let lookup = svc.assign_asset_to_category(assignment);
    let found = repo.get_taxonomy(&lookup.assignment.taxonomy_id);
    let assignment = match lookup.taxonomy_found(found)? {
        AssignmentStep::Store(assignment) => assignment,
        AssignmentStep::Clear(clearing) => {
            let asked = &clearing.assignment;
            let answer = repo.delete_asset_assignments(&asked.asset_id, &asked.taxonomy_id);
            clearing.cleared(answer)?
        }
    };
    repo.upsert_assignment(assignment)
}

#[test]
fn replace_asset_assignments_replaces_existing_rows() {
    let existing = vec![make_assignment("AAPL", "regions", "US", 10000)];
    let svc = make_service(MockTaxonomyRepo::with_assignments(existing));

    let new_assignments = vec![
        new_assignment("AAPL", "regions", "EU", 6000),
        new_assignment("AAPL", "regions", "EM", 4000),
    ];

    let result = replace_asset_assignments(&svc, "AAPL", "regions", new_assignments).unwrap();

    assert_eq!(result.len(), 2);
    let cats: Vec<&str> = result.iter().map(|a| a.category_id.as_str()).collect();
    assert!(cats.contains(&"EU"));
    assert!(cats.contains(&"EM"));

    let all = svc.repository().get_asset_assignments("AAPL").unwrap();
    assert!(!all.iter().any(|a| a.category_id == "US"));
}

#[test]
fn replace_asset_assignments_empty_list_clears_assignments() {
    let existing = vec![make_assignment("AAPL", "regions", "US", 10000)];
    let svc = make_service(MockTaxonomyRepo::with_assignments(existing));

    let result = replace_asset_assignments(&svc, "AAPL", "regions", vec![]).unwrap();

    assert!(result.is_empty());
    let all = svc.repository().get_asset_assignments("AAPL").unwrap();
    assert!(all.is_empty());
}

#[test]
fn replace_asset_assignments_does_not_touch_other_taxonomies() {
    let existing = vec![
        make_assignment("AAPL", "regions", "US", 10000),
        make_assignment("AAPL", "sectors", "TECH", 10000),
    ];
    let svc = make_service(MockTaxonomyRepo::with_assignments(existing));

    replace_asset_assignments(
        &svc,
        "AAPL",
        "regions",
        vec![new_assignment("AAPL", "regions", "EU", 10000)],
    )
    .unwrap();

    let all = svc.repository().get_asset_assignments("AAPL").unwrap();
    assert!(all.iter().any(|a| a.taxonomy_id == "sectors" && a.category_id == "TECH"));
    assert!(!all.iter().any(|a| a.taxonomy_id == "regions" && a.category_id == "US"));
    assert!(all.iter().any(|a| a.taxonomy_id == "regions" && a.category_id == "EU"));
}

#[test]
fn replacement_clears_and_then_stores_in_order() {
    let svc = make_service(MockTaxonomyRepo::default());
    let rows = replace_asset_assignments(
        &svc,
        "AAPL",
        "regions",
        vec![
            new_assignment("AAPL", "regions", "A", 1),
            new_assignment("AAPL", "regions", "B", 2),
            new_assignment("AAPL", "regions", "C", 3),
        ],
    )
    .unwrap();
    let calls = svc.repository().calls.lock().unwrap();
    assert_eq!(*calls, vec!["clear AAPL regions", "upsert A", "upsert B", "upsert C"]);
    let stored: Vec<(&str, i32)> = rows.iter().map(|r| (r.category_id.as_str(), r.weight)).collect();
    assert_eq!(stored, vec![("A", 1), ("B", 2), ("C", 3)]);
}

fn three_new() -> Vec<NewAssetTaxonomyAssignment> {
    vec![
        new_assignment("AAPL", "regions", "A", 1),
        new_assignment("AAPL", "regions", "B", 2),
        new_assignment("AAPL", "regions", "C", 3),
    ]
}

fn repo_with_old_rows() -> MockTaxonomyRepo {
    MockTaxonomyRepo::with_assignments(vec![
        make_assignment("AAPL", "regions", "US", 7000),
        make_assignment("AAPL", "sectors", "TECH", 10000),
        make_assignment("MSFT", "regions", "US", 10000),
        make_assignment("AAPL", "regions", "EU", 3000),
    ])
}

/// What the store holds of an asset in a taxonomy.
fn held(
    svc: &TaxonomyService<MockTaxonomyRepo>,
    asset_id: &str,
    taxonomy_id: &str,
) -> Vec<(String, String, i32, String)> {
    svc.repository()
        .get_asset_assignments(asset_id)
        .unwrap()
        .into_iter()
        .filter(|a| a.taxonomy_id == taxonomy_id)
        .map(|a| (a.id, a.category_id, a.weight, a.source))
        .collect()
}

#[test]
fn failed_replacement_leaves_the_former_rows() {
    let mut repo = repo_with_old_rows();
    repo.failing = vec![3];
    let svc = make_service(repo);
    let regions = held(&svc, "AAPL", "regions");
    let sectors = held(&svc, "AAPL", "sectors");
    let other = held(&svc, "MSFT", "regions");
    assert_eq!(
        regions,
        vec![
            ("AAPL-regions-US".to_string(), "US".to_string(), 7000, "manual".to_string()),
            ("AAPL-regions-EU".to_string(), "EU".to_string(), 3000, "manual".to_string()),
        ]
    );

    let error = replace_asset_assignments(&svc, "AAPL", "regions", three_new()).unwrap_err();

    assert_eq!(error.message(), "disk full");
    assert_eq!(
        *svc.repository().calls.lock().unwrap(),
        vec![
            "clear AAPL regions",
            "upsert A",
            "upsert B",
            "clear AAPL regions",
            "upsert US",
            "upsert EU",
        ]
    );
    assert_eq!(held(&svc, "AAPL", "regions"), regions);
    assert_eq!(held(&svc, "AAPL", "sectors"), sectors);
    assert_eq!(held(&svc, "MSFT", "regions"), other);
}

#[test]
fn failed_replacement_of_no_rows_leaves_no_rows() {
    let mut repo = MockTaxonomyRepo::default();
    repo.failing = vec![2];
    let svc = make_service(repo);
    let error = replace_asset_assignments(&svc, "AAPL", "regions", three_new()).unwrap_err();
    assert_eq!(error.message(), "disk full");
    assert!(held(&svc, "AAPL", "regions").is_empty());
}

#[test]
fn failed_restoring_call_does_not_stop_the_others() {
    let mut repo = repo_with_old_rows();
    repo.failing = vec![3, 5];
    let svc = make_service(repo);
    let error = replace_asset_assignments(&svc, "AAPL", "regions", three_new()).unwrap_err();
    assert_eq!(error.message(), "disk full");
    assert_eq!(
        held(&svc, "AAPL", "regions"),
        vec![("AAPL-regions-EU".to_string(), "EU".to_string(), 3000, "manual".to_string())]
    );
    let mut repo = repo_with_old_rows();
    repo.failing = vec![2, 3];
    let svc = make_service(repo);
    let error = replace_asset_assignments(&svc, "AAPL", "regions", three_new()).unwrap_err();
    assert_eq!(error.message(), "disk full");
    assert_eq!(held(&svc, "AAPL", "regions").len(), 2);
}

#[test]
fn failed_lookup_or_clearing_stores_nothing() {
    let mut repo = repo_with_old_rows();
    repo.failing = vec![1];
    let svc = make_service(repo);
    let error = replace_asset_assignments(&svc, "AAPL", "regions", three_new()).unwrap_err();
    assert_eq!(error.message(), "locked");
    assert_eq!(*svc.repository().calls.lock().unwrap(), vec!["clear AAPL regions"]);
    assert_eq!(held(&svc, "AAPL", "regions").len(), 2);
    let lookup = svc.replace_asset_assignments("AAPL", "regions", three_new());
    let error = lookup.assignments_found(Err(Error::Unexpected("down".to_string())));
    assert_eq!(error.err().unwrap().message(), "down");
}

#[test]
fn empty_list_clears_though_the_former_rows_cannot_be_read() {
    let svc = make_service(repo_with_old_rows());
    let lookup = svc.replace_asset_assignments("AAPL", "regions", vec![]);
    let found = lookup.assignments_found(Err(Error::Unexpected("down".to_string())));
    let clearing = found.ok().unwrap();
    assert_eq!(clearing.asset_id, "AAPL");
    assert_eq!(clearing.taxonomy_id, "regions");
    assert!(clearing.assignments.is_empty());
    assert!(clearing.kept.is_empty());
    let answer =
        svc.repository().delete_asset_assignments(&clearing.asset_id, &clearing.taxonomy_id);
    match clearing.cleared(answer).ok().unwrap().next() {
        ReplacementStep::Done(rows) => assert!(rows.is_empty()),
        ReplacementStep::Store { .. } => panic!("there is nothing to store"),
    }
    assert!(held(&svc, "AAPL", "regions").is_empty());
    assert_eq!(held(&svc, "AAPL", "sectors").len(), 1);
    assert_eq!(held(&svc, "MSFT", "regions").len(), 1);
}

#[test]
fn only_the_rows_of_the_taxonomy_are_kept() {
    let svc = make_service(repo_with_old_rows());
    let found = svc.repository().get_asset_assignments("AAPL");
    let lookup = svc.replace_asset_assignments("AAPL", "regions", three_new());
    let clearing = lookup.assignments_found(found).ok().unwrap();
    assert_eq!(clearing.assignments.len(), 3);
    let kept: Vec<(Option<&str>, &str, i32, &str)> = clearing
        .kept
        .iter()
        .map(|a| (a.id.as_deref(), a.category_id.as_str(), a.weight, a.source.as_str()))
        .collect();
    assert_eq!(
        kept,
        vec![
            (Some("AAPL-regions-US"), "US", 7000, "manual"),
            (Some("AAPL-regions-EU"), "EU", 3000, "manual"),
        ]
    );
    assert!(clearing.kept.iter().all(|a| a.asset_id == "AAPL" && a.taxonomy_id == "regions"));
}

#[test]
fn single_select_assignment_takes_the_place_of_others() {
    let mut repo = MockTaxonomyRepo::with_assignments(vec![
        make_assignment("AAPL", "kind", "STOCK", 10000),
        make_assignment("AAPL", "regions", "US", 10000),
        make_assignment("MSFT", "kind", "STOCK", 10000),
    ]);
    repo.single_select = vec!["kind".to_string()];
    let svc = make_service(repo);
    let row = assign_asset_to_category(&svc, new_assignment("AAPL", "kind", "FUND", 10000)).unwrap();
    assert_eq!(row.category_id, "FUND");
    let all = svc.repository().assignments.lock().unwrap();
    let left: Vec<(&str, &str)> =
        all.iter().map(|a| (a.asset_id.as_str(), a.category_id.as_str())).collect();
    assert_eq!(left, vec![("AAPL", "US"), ("MSFT", "STOCK"), ("AAPL", "FUND")]);
}

#[test]
fn other_assignments_stay_where_many_are_allowed() {
    let svc = make_service(MockTaxonomyRepo::with_assignments(vec![make_assignment(
        "AAPL", "regions", "US", 5000,
    )]));
    assign_asset_to_category(&svc, new_assignment("AAPL", "regions", "EU", 5000)).unwrap();
    assert_eq!(*svc.repository().calls.lock().unwrap(), vec!["upsert EU"]);
    assert_eq!(svc.repository().get_asset_assignments("AAPL").unwrap().len(), 2);
}

#[test]
fn failures_end_an_assignment() {
    let svc = make_service(MockTaxonomyRepo::default());
    let failure = || Error::Unexpected("down".to_string());
    let lookup = svc.assign_asset_to_category(new_assignment("AAPL", "kind", "FUND", 1));
    assert_eq!(lookup.taxonomy_found(Err(failure())).err().unwrap().message(), "down");
    let mut repo = MockTaxonomyRepo::default();
    repo.single_select = vec!["kind".to_string()];
    let lookup = svc.assign_asset_to_category(new_assignment("AAPL", "kind", "FUND", 1));
    match lookup.taxonomy_found(repo.get_taxonomy("kind")).ok().unwrap() {
        AssignmentStep::Clear(clearing) => {
            assert_eq!(clearing.cleared(Err(failure())).err().unwrap().message(), "down");
        }
        AssignmentStep::Store(_) => panic!("the assignments of the asset go first"),
    }
}

fn read(
    svc: &TaxonomyService<MockTaxonomyRepo>,
    asset_id: &str,
    taxonomy_id: Option<&str>,
) -> GetAssetTaxonomyAssignmentsOutput {
    let search = GetAssetTaxonomyAssignmentsTool::new(Arc::new(())).call(
        GetAssetTaxonomyAssignmentsArgs {
            symbol: asset_id.to_string(),
            taxonomy_id: taxonomy_id.map(|t| t.to_string()),
        },
    );
    let found = vec![Asset { id: asset_id.to_string(), instrument_symbol: None }];
    let search = search.assets_found(Ok(found)).ok().unwrap();
    let rows = svc.repository().get_asset_assignments(&search.asset_id).ok().unwrap();
    search.assignments_found(Ok(rows)).ok().unwrap().taxonomies_found(Ok(vec![])).unwrap()
}

#[test]
fn reading_gives_back_what_was_written() {
    let svc = make_service(MockTaxonomyRepo::with_assignments(vec![
        make_assignment("AAPL", "regions", "US", 10000),
        make_assignment("AAPL", "sectors", "TECH", 10000),
        make_assignment("MSFT", "regions", "US", 10000),
    ]));
    let request = SetAssetTaxonomyAssignmentsTool::new(Arc::new(()))
        .call(SetAssetTaxonomyAssignmentsArgs {
            symbol: "AAPL".to_string(),
            taxonomy_id: "regions".to_string(),
            assignments: vec![
                AssignmentInput { category_id: "EU".to_string(), weight_basis_points: 2500 },
                AssignmentInput { category_id: "EM".to_string(), weight_basis_points: 1000 },
            ],
        })
        .ok()
        .unwrap();
    let found = vec![Asset { id: "AAPL".to_string(), instrument_symbol: None }];
    let (request, pending) = request.assets_found(Ok(found)).ok().unwrap();
    let stored = replace_asset_assignments(
        &svc,
        &request.asset_id,
        &request.taxonomy_id,
        request.assignments,
    )
    .unwrap();
    let output = pending.assignments_replaced(Ok(stored)).ok().unwrap();
    let output = output.taxonomies_found(Ok(vec![])).unwrap();
    assert_eq!(output.unallocated_basis_points, 6500);

    let shown: Vec<(String, i32, String)> = read(&svc, "AAPL", Some("regions"))
        .assignments
        .into_iter()
        .map(|a| (a.category_id, a.weight_basis_points, a.source))
        .collect();
    assert_eq!(
        shown,
        vec![
            ("EU".to_string(), 2500, "ai".to_string()),
            ("EM".to_string(), 1000, "ai".to_string()),
        ]
    );
    let sectors = read(&svc, "AAPL", Some("sectors"));
    assert_eq!(sectors.assignments.len(), 1);
    assert_eq!(sectors.assignments[0].category_id, "TECH");
    assert_eq!(sectors.assignments[0].source, "manual");
    let other = read(&svc, "MSFT", None);
    assert_eq!(other.assignments.len(), 1);
    assert_eq!(other.assignments[0].category_id, "US");
}

fn named_taxonomies() -> Vec<TaxonomyWithCategories> {
    let now = NaiveDateTime::default();
    [("regions", "EU", "Europe"), ("sectors", "TECH", "Technology")]
        .into_iter()
        .map(|(taxonomy_id, id, name)| TaxonomyWithCategories {
            taxonomy: Taxonomy {
                id: taxonomy_id.to_string(),
                name: taxonomy_id.to_uppercase(),
                color: "#ffffff".to_string(),
                description: None,
                is_system: false,
                is_single_select: false,
                sort_order: 0,
                created_at: now,
                updated_at: now,
            },
            categories: vec![Category {
                id: id.to_string(),
                taxonomy_id: taxonomy_id.to_string(),
                parent_id: None,
                name: name.to_string(),
                key: id.to_string(),
                color: "#808080".to_string(),
                description: None,
                sort_order: 0,
                created_at: now,
                updated_at: now,
            }],
        })
        .collect()
}

#[test]
fn both_tools_name_a_category_alike() {
    let found = || Ok(vec![Asset { id: "AAPL".to_string(), instrument_symbol: None }]);
    let rows = || Ok(vec![make_assignment("AAPL", "regions", "EU", 10000)]);
    let request = SetAssetTaxonomyAssignmentsTool::new(Arc::new(()))
        .call(SetAssetTaxonomyAssignmentsArgs {
            symbol: "AAPL".to_string(),
            taxonomy_id: "regions".to_string(),
            assignments: vec![],
        })
        .ok()
        .unwrap();
    let (_, pending) = request.assets_found(found()).ok().unwrap();
    let stored = pending.assignments_replaced(rows()).ok().unwrap();
    let written = stored.taxonomies_found(Ok(named_taxonomies())).unwrap();
    let search = GetAssetTaxonomyAssignmentsTool::new(Arc::new(())).call(
        GetAssetTaxonomyAssignmentsArgs { symbol: "AAPL".to_string(), taxonomy_id: None },
    );
    let search = search.assets_found(found()).ok().unwrap();
    let search = search.assignments_found(rows()).ok().unwrap();
    let read = search.taxonomies_found(Ok(named_taxonomies())).unwrap();
    assert_eq!(written.assignments[0].category_name, "Europe");
    assert_eq!(read.assignments[0].category_name, "Europe");
    assert_eq!(read.assignments[0].taxonomy_name, "REGIONS");
}

#[test]
fn tool_reports_the_failure_and_the_former_rows_stay() {
    let mut repo = repo_with_old_rows();
    repo.failing = vec![3];
    let svc = make_service(repo);
    let before = held(&svc, "AAPL", "regions");
    let request = SetAssetTaxonomyAssignmentsTool::new(Arc::new(()))
        .call(SetAssetTaxonomyAssignmentsArgs {
            symbol: "AAPL".to_string(),
            taxonomy_id: "regions".to_string(),
            assignments: vec![
                AssignmentInput { category_id: "EU".to_string(), weight_basis_points: 2500 },
                AssignmentInput { category_id: "EM".to_string(), weight_basis_points: 1000 },
            ],
        })
        .ok()
        .unwrap();
    let found = vec![Asset { id: "AAPL".to_string(), instrument_symbol: None }];
    let (request, pending) = request.assets_found(Ok(found)).ok().unwrap();
    let stored = replace_asset_assignments(
        &svc,
        &request.asset_id,
        &request.taxonomy_id,
        request.assignments,
    )
    .map_err(|e| e.message().to_string());
    let error = pending.assignments_replaced(stored).err().unwrap();
    assert_eq!(error.message(), "disk full");
    assert_eq!(held(&svc, "AAPL", "regions"), before);
    let shown = read(&svc, "AAPL", Some("regions"));
    let categories: Vec<&str> =
        shown.assignments.iter().map(|a| a.category_id.as_str()).collect();
    assert_eq!(categories, vec!["US", "EU"]);
}
