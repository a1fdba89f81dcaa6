//! The tool that reads how an asset is classified.
//!
//! It finds the asset by its symbol, reads the assignments of the asset, keeps
//! those of one taxonomy where one is asked for, and adds names.
use crate::errors::AiError;
use crate::models::{
    assignments_view, taxonomies_view, text_of, Asset, AssetTaxonomyAssignment, AssignmentView,
    TaxonomyWithCategories, TaxonomyWithCategoriesView,
};
use crate::tools::definition::{text_parameter, Parameter, ToolDefinition, ToolDefinitionView};
use crate::tools::names::{
    category_name, law_category_of_another_taxonomy_stands_for_itself, law_known_category_is_named,
    law_known_taxonomy_is_named, law_unknown_ids_stand_for_themselves, taxonomy_name, TaxonomyNames,
};
use std::sync::Arc;
use vstd::prelude::*;

verus! {

/// The name of the tool.
pub const NAME: &'static str = "get_asset_taxonomy_assignments";

/// What the tool does, as the agent is told.
pub const DESCRIPTION: &'static str = "Get taxonomy assignments for an asset. Returns how the asset is classified across taxonomies (regions, sectors, asset classes, etc.). Optionally filter to a single taxonomy.";

/// What the parameter `symbol` is.
pub const SYMBOL_DESCRIPTION: &'static str = "Ticker symbol for the asset (e.g. 'AAPL', 'VWRL.MI')";

/// What the parameter `taxonomyId` is.
pub const TAXONOMY_ID_DESCRIPTION: &'static str = "Optional: taxonomy ID to filter results (use list_taxonomies to discover IDs)";

/// The message for a symbol that no asset has.
pub open spec fn not_found_message(symbol: Seq<char>) -> Seq<char> {
    "Asset not found for symbol '"@ + symbol + "'"@
}

/// The message for a symbol that several assets have.
pub open spec fn ambiguous_message(symbol: Seq<char>) -> Seq<char> {
    "Ambiguous symbol '"@ + symbol
        + "', please specify with exchange suffix (e.g. 'VWRL.MI')"@
}

/// What a symbol resolves to, given what the search for it gave: the id of the
/// one asset that has it, or the message that says why there is none.
pub open spec fn resolution(found: Result<Vec<Asset>, String>, symbol: Seq<char>) -> Result<
    Seq<char>,
    Seq<char>,
> {
    match found {
        Err(reason) => Err(reason@),
        Ok(assets) => if assets@.len() == 0 {
            Err(not_found_message(symbol))
        } else if assets@.len() == 1 {
            Ok(assets@[0].id@)
        } else {
            Err(ambiguous_message(symbol))
        },
    }
}

/// Resolves a symbol to the id of its asset, from what `search_by_symbol(symbol)`
/// of the asset service gave: exactly one asset must have the symbol. The search
/// compares instrument symbols exactly, but for case.
pub fn resolve_symbol(found: Result<Vec<Asset>, String>, symbol: &str) -> (asset_id: Result<
    String,
    AiError,
>)
    ensures
        match found {
            Err(reason) => asset_id matches Err(error) && error.text() == reason@,
            Ok(assets) => if assets@.len() == 1 {
                asset_id matches Ok(id) && id == assets@[0].id
            } else if assets@.len() == 0 {
                asset_id matches Err(error) && error.text() == "Asset not found for symbol '"@
                    + symbol@ + "'"@
            } else {
                asset_id matches Err(error) && error.text() == "Ambiguous symbol '"@ + symbol@
                    + "', please specify with exchange suffix (e.g. 'VWRL.MI')"@
            },
        },
        match resolution(found, symbol@) {
            Ok(id) => asset_id matches Ok(text) && text@ == id,
            Err(message) => asset_id matches Err(error) && error.text() == message,
        },
{
    let mut assets = match found {
        Err(reason) => {
            return Err(AiError::ToolExecutionFailed(reason));
        },
        Ok(assets) => assets,
    };
    if assets.len() > 1 {
        return Err(
            AiError::ToolExecutionFailed(
                "Ambiguous symbol '".to_string().concat(symbol).concat(
                    "', please specify with exchange suffix (e.g. 'VWRL.MI')",
                ),
            ),
        );
    }
    match assets.pop() {
        None => Err(
            AiError::ToolExecutionFailed(
                "Asset not found for symbol '".to_string().concat(symbol).concat("'"),
            ),
        ),
        Some(asset) => Ok(asset.id),
    }
}

/// Arguments of the tool.
#[derive(Debug)]
pub struct GetAssetTaxonomyAssignmentsArgs {
    /// Ticker symbol of the asset, such as "AAPL" or "VWRL.MI".
    pub symbol: String,
    /// The taxonomy to keep to; all taxonomies where it is absent.
    pub taxonomy_id: Option<String>,
}

/// One assignment of the asset.
#[derive(Debug, Clone)]
pub struct TaxonomyAssignmentDto {
    pub taxonomy_id: String,
    pub taxonomy_name: String,
    pub category_id: String,
    pub category_name: String,
    /// Weight in basis points (10 000 = 100%).
    pub weight_basis_points: i32,
    pub source: String,
}

pub struct TaxonomyAssignmentDtoView {
    pub taxonomy_id: Seq<char>,
    pub taxonomy_name: Seq<char>,
    pub category_id: Seq<char>,
    pub category_name: Seq<char>,
    pub weight_basis_points: i32,
    pub source: Seq<char>,
}

impl View for TaxonomyAssignmentDto {
    type V = TaxonomyAssignmentDtoView;

    open spec fn view(&self) -> TaxonomyAssignmentDtoView {
        TaxonomyAssignmentDtoView {
            taxonomy_id: self.taxonomy_id@,
            taxonomy_name: self.taxonomy_name@,
            category_id: self.category_id@,
            category_name: self.category_name@,
            weight_basis_points: self.weight_basis_points,
            source: self.source@,
        }
    }
}

/// Output of the tool.
#[derive(Debug, Clone)]
pub struct GetAssetTaxonomyAssignmentsOutput {
    pub symbol: String,
    pub asset_id: String,
    pub assignments: Vec<TaxonomyAssignmentDto>,
}

/// The rows that the caller asked for.
pub open spec fn selected(rows: Seq<AssignmentView>, taxonomy_id: Option<Seq<char>>) -> Seq<
    AssignmentView,
> {
    match taxonomy_id {
        Some(id) => rows.filter(|row: AssignmentView| row.taxonomy_id == id),
        None => rows,
    }
}

/// What the tool shows of an assignment.
pub open spec fn named_assignment(
    taxonomies: Seq<TaxonomyWithCategoriesView>,
    row: AssignmentView,
) -> TaxonomyAssignmentDtoView {
    TaxonomyAssignmentDtoView {
        taxonomy_id: row.taxonomy_id,
        taxonomy_name: taxonomy_name(taxonomies, row.taxonomy_id),
        category_id: row.category_id,
        category_name: category_name(taxonomies, row.taxonomy_id, row.category_id),
        weight_basis_points: row.weight,
        source: row.source,
    }
}

/// The tool, with the environment that it reaches the services through.
pub struct GetAssetTaxonomyAssignmentsTool<E> {
    env: Arc<E>,
}

impl<E> GetAssetTaxonomyAssignmentsTool<E> {
    /// The environment of the tool.
    pub closed spec fn environment(&self) -> Arc<E> {
        self.env
    }

    pub fn new(env: Arc<E>) -> (tool: Self)
        ensures
            tool.environment() == env,
    {
        Self { env }
    }

    /// The environment of the tool.
    pub fn env(&self) -> (env: &Arc<E>)
        ensures
            *env == self.environment(),
    {
        &self.env
    }

    /// The definition of the tool: it takes the symbol of the asset and, where
    /// the caller wants one taxonomy only, the id of that taxonomy.
    pub fn definition(&self) -> (definition: ToolDefinition)
        ensures
            definition@ == (ToolDefinitionView {
                name: NAME@,
                description: DESCRIPTION@,
                parameters: seq![
                    text_parameter("symbol"@, SYMBOL_DESCRIPTION@, true),
                    text_parameter("taxonomyId"@, TAXONOMY_ID_DESCRIPTION@, false),
                ],
            }),
    {
        let mut parameters: Vec<Parameter> = Vec::new();
        parameters.push(Parameter::text("symbol", SYMBOL_DESCRIPTION, true));
        parameters.push(Parameter::text("taxonomyId", TAXONOMY_ID_DESCRIPTION, false));
        let definition = ToolDefinition {
            name: NAME.to_string(),
            description: DESCRIPTION.to_string(),
            parameters,
        };
        assert(definition@.parameters =~= seq![
            text_parameter("symbol"@, SYMBOL_DESCRIPTION@, true),
            text_parameter("taxonomyId"@, TAXONOMY_ID_DESCRIPTION@, false),
        ]);
        definition
    }

    /// Starts a call of the tool.
    pub fn call(&self, args: GetAssetTaxonomyAssignmentsArgs) -> (next: AssetSearch)
        ensures
            next.args == args,
    {
        AssetSearch { args }
    }
}

impl<E> Clone for GetAssetTaxonomyAssignmentsTool<E> {
    fn clone(&self) -> (tool: Self)
        ensures
            tool.environment() == self.environment(),
    {
        Self { env: self.env.clone() }
    }
}

/// A call begins: the next call is `search_by_symbol` on the symbol.
pub struct AssetSearch {
    pub args: GetAssetTaxonomyAssignmentsArgs,
}

/// The asset is known: the next call is `get_asset_assignments(asset_id)`.
pub struct AssignmentSearch {
    pub symbol: String,
    pub asset_id: String,
    pub taxonomy_id: Option<String>,
}

/// The assignments are known: the next call is `get_taxonomies_with_categories()`.
pub struct NameSearch {
    pub symbol: String,
    pub asset_id: String,
    pub rows: Vec<AssetTaxonomyAssignment>,
}

impl AssetSearch {
    /// Goes on once `search_by_symbol` has answered.
    pub fn assets_found(self, found: Result<Vec<Asset>, String>) -> (next: Result<
        AssignmentSearch,
        AiError,
    >)
        ensures
            match resolution(found, self.args.symbol@) {
                Ok(id) => next matches Ok(search) && search.symbol == self.args.symbol
                    && search.asset_id@ == id && search.taxonomy_id == self.args.taxonomy_id,
                Err(message) => next matches Err(error) && error.text() == message,
            },
    {
        match resolve_symbol(found, self.args.symbol.as_str()) {
            Err(error) => Err(error),
            Ok(asset_id) => Ok(
                AssignmentSearch {
                    symbol: self.args.symbol,
                    asset_id,
                    taxonomy_id: self.args.taxonomy_id,
                },
            ),
        }
    }
}

/// Keeps the rows of one taxonomy, in order.
fn rows_of_taxonomy(rows: Vec<AssetTaxonomyAssignment>, taxonomy_id: &String) -> (kept: Vec<
    AssetTaxonomyAssignment,
>)
    ensures
        assignments_view(kept@) == selected(assignments_view(rows@), Some(taxonomy_id@)),
{
    let ghost all = assignments_view(rows@);
    let ghost keep = |row: AssignmentView| row.taxonomy_id == taxonomy_id@;
    let mut kept: Vec<AssetTaxonomyAssignment> = Vec::new();
    let mut i: usize = 0;
    proof {
        reveal(Seq::filter);
        assert(assignments_view(kept@) =~= all.take(0).filter(keep));
    }
    while i < rows.len()
        invariant
            i <= rows@.len(),
            all == assignments_view(rows@),
            keep == (|row: AssignmentView| row.taxonomy_id == taxonomy_id@),
            assignments_view(kept@) == all.take(i as int).filter(keep),
        decreases rows@.len() - i,
    {
        let ghost before = kept@;
        if rows[i].taxonomy_id == *taxonomy_id {
            kept.push(rows[i].clone());
        }
        proof {
            reveal(Seq::filter);
            assert(all.take(i + 1).drop_last() =~= all.take(i as int));
            assert(all.take(i + 1).last() == rows@[i as int]@);
            if keep(rows@[i as int]@) {
                assert(assignments_view(kept@) =~= assignments_view(before).push(
                    rows@[i as int]@,
                ));
            }
        }
        i = i + 1;
    }
    assert(all.take(all.len() as int) =~= all);
    kept
}

impl AssignmentSearch {
    /// Goes on once `get_asset_assignments` has answered.
    pub fn assignments_found(
        self,
        found: Result<Vec<AssetTaxonomyAssignment>, String>,
    ) -> (next: Result<NameSearch, AiError>)
        ensures
            match found {
                Err(reason) => next == Err::<NameSearch, AiError>(
                    AiError::ToolExecutionFailed(reason),
                ),
                Ok(rows) => next matches Ok(search) && search.symbol == self.symbol
                    && search.asset_id == self.asset_id && assignments_view(search.rows@)
                    == selected(assignments_view(rows@), text_of(self.taxonomy_id)),
            },
    {
        let rows = match found {
            Err(reason) => {
                return Err(AiError::ToolExecutionFailed(reason));
            },
            Ok(rows) => rows,
        };
        let rows = match &self.taxonomy_id {
            Some(taxonomy_id) => rows_of_taxonomy(rows, taxonomy_id),
            None => rows,
        };
        Ok(NameSearch { symbol: self.symbol, asset_id: self.asset_id, rows })
    }
}

impl NameSearch {
    /// Ends the call once the taxonomies have been read: each row is shown, in
    /// order, with the names of its taxonomy and category.
    pub fn taxonomies_found(self, found: Result<Vec<TaxonomyWithCategories>, String>) -> (outcome:
        Result<GetAssetTaxonomyAssignmentsOutput, AiError>)
        ensures
            match found {
                Err(reason) => outcome == Err::<GetAssetTaxonomyAssignmentsOutput, AiError>(
                    AiError::ToolExecutionFailed(reason),
                ),
                Ok(taxonomies) => outcome matches Ok(output) && output.symbol == self.symbol
                    && output.asset_id == self.asset_id && output.assignments@.len()
                    == self.rows@.len() && (forall|i: int|
                    #![trigger output.assignments@[i]]
                    0 <= i < self.rows@.len() ==> {
                        let shown = output.assignments@[i];
                        let row = self.rows@[i];
                        let all = taxonomies_view(taxonomies@);
                        &&& shown.taxonomy_id@ == row.taxonomy_id@
                        &&& shown.taxonomy_name@ == taxonomy_name(all, row.taxonomy_id@)
                        &&& shown.category_id@ == row.category_id@
                        &&& shown.category_name@ == category_name(
                            all,
                            row.taxonomy_id@,
                            row.category_id@,
                        )
                        &&& shown.weight_basis_points == row.weight
                        &&& shown.source@ == row.source@
                    }) && output.assignments@.map_values(
                    |a: TaxonomyAssignmentDto| a@,
                ) == assignments_view(self.rows@).map_values(
                    |row: AssignmentView| named_assignment(taxonomies_view(taxonomies@), row),
                ),
            },
    {
        let taxonomies = match found {
            Err(reason) => {
                return Err(AiError::ToolExecutionFailed(reason));
            },
            Ok(taxonomies) => taxonomies,
        };
        let names = TaxonomyNames::new(taxonomies.as_slice());
        let ghost source = taxonomies_view(taxonomies@);
        let rows = self.rows;
        let mut assignments: Vec<TaxonomyAssignmentDto> = Vec::new();
        let mut i: usize = 0;
        while i < rows.len()
            invariant
                i <= rows@.len(),
                assignments@.len() == i,
                names.source() == source,
                forall|j: int|
                    0 <= j < i ==> (#[trigger] assignments@[j])@ == named_assignment(
                        source,
                        rows@[j]@,
                    ),
                forall|j: int|
                    #![trigger assignments@[j]]
                    0 <= j < i ==> assignments@[j].taxonomy_id@ == rows@[j].taxonomy_id@
                        && assignments@[j].taxonomy_name@ == taxonomy_name(
                        source,
                        rows@[j].taxonomy_id@,
                    ) && assignments@[j].category_id@ == rows@[j].category_id@
                        && assignments@[j].category_name@ == category_name(
                        source,
                        rows@[j].taxonomy_id@,
                        rows@[j].category_id@,
                    ) && assignments@[j].weight_basis_points == rows@[j].weight
                        && assignments@[j].source@ == rows@[j].source@,
            decreases rows@.len() - i,
        {
            let row = &rows[i];
            assignments.push(
                TaxonomyAssignmentDto {
                    taxonomy_id: row.taxonomy_id.clone(),
                    taxonomy_name: names.taxonomy_name(&row.taxonomy_id),
                    category_id: row.category_id.clone(),
                    category_name: names.category_name(&row.taxonomy_id, &row.category_id),
                    weight_basis_points: row.weight,
                    source: row.source.clone(),
                },
            );
            i = i + 1;
        }
        assert(assignments@.map_values(|a: TaxonomyAssignmentDto| a@) =~= assignments_view(
            rows@,
        ).map_values(|row: AssignmentView| named_assignment(source, row)));
        Ok(
            GetAssetTaxonomyAssignmentsOutput {
                symbol: self.symbol,
                asset_id: self.asset_id,
                assignments,
            },
        )
    }
}

/// A symbol resolves where exactly one asset has it, and then to that asset's id;
/// otherwise the message says which of the other cases holds.
pub proof fn law_one_asset_resolves(found: Result<Vec<Asset>, String>, symbol: Seq<char>)
    ensures
        resolution(found, symbol) is Ok <==> (found matches Ok(assets) && assets@.len() == 1),
        found matches Ok(assets) && assets@.len() == 1 ==> resolution(found, symbol) == Ok::<
            Seq<char>,
            Seq<char>,
        >(found->Ok_0@[0].id@),
        found matches Ok(assets) && assets@.len() == 0 ==> resolution(found, symbol) == Err::<
            Seq<char>,
            Seq<char>,
        >("Asset not found for symbol '"@ + symbol + "'"@),
        found matches Ok(assets) && assets@.len() > 1 ==> resolution(found, symbol) == Err::<
            Seq<char>,
            Seq<char>,
        >(
            "Ambiguous symbol '"@ + symbol
                + "', please specify with exchange suffix (e.g. 'VWRL.MI')"@,
        ),
        found matches Err(reason) ==> resolution(found, symbol) == Err::<Seq<char>, Seq<char>>(
            reason@,
        ),
{
}

/// A row is asked for exactly where it is of the taxonomy that is asked for, or none
/// is; what else it holds does not matter, and rows stay in order.
pub proof fn law_selection_goes_by_taxonomy(rows: Seq<AssignmentView>, taxonomy_id: Seq<char>)
    ensures
        selected(rows, None) == rows,
        selected(rows, Some(taxonomy_id)) == rows.filter(
            |row: AssignmentView| row.taxonomy_id == taxonomy_id,
        ),
        forall|i: int|
            #![trigger rows[i]]
            0 <= i < rows.len() ==> (selected(rows, Some(taxonomy_id)).contains(rows[i])
                <==> rows[i].taxonomy_id == taxonomy_id),
{
    let of_taxonomy = |row: AssignmentView| row.taxonomy_id == taxonomy_id;
    let kept = rows.filter(of_taxonomy);
    assert forall|i: int| #![trigger rows[i]] 0 <= i < rows.len() implies (kept.contains(rows[i])
        <==> rows[i].taxonomy_id == taxonomy_id) by {
        if rows[i].taxonomy_id == taxonomy_id {
            rows.lemma_filter_contains(of_taxonomy, i);
        }
        if kept.contains(rows[i]) {
            let j = choose|j: int| 0 <= j < kept.len() && kept[j] == rows[i];
            rows.lemma_filter_pred(of_taxonomy, j);
        }
    }
}

/// A row is shown with its own ids, weight and source, whatever names are known.
pub proof fn law_row_is_shown_as_it_is(
    taxonomies: Seq<TaxonomyWithCategoriesView>,
    row: AssignmentView,
)
    ensures
        named_assignment(taxonomies, row).taxonomy_id == row.taxonomy_id,
        named_assignment(taxonomies, row).category_id == row.category_id,
        named_assignment(taxonomies, row).weight_basis_points == row.weight,
        named_assignment(taxonomies, row).source == row.source,
{
}

/// A row is shown by the name of its taxonomy where there is one, the last with its
/// id, whatever the row's weight, source or category.
pub proof fn law_row_is_shown_with_its_taxonomy(
    taxonomies: Seq<TaxonomyWithCategoriesView>,
    row: AssignmentView,
    i: int,
)
    requires
        0 <= i < taxonomies.len(),
        taxonomies[i].taxonomy.id == row.taxonomy_id,
        forall|j: int|
            i < j < taxonomies.len() ==> (#[trigger] taxonomies[j]).taxonomy.id != row.taxonomy_id,
    ensures
        named_assignment(taxonomies, row).taxonomy_name == taxonomies[i].taxonomy.name,
        (forall|k: int|
            0 <= k < taxonomies[i].categories.len() ==> (#[trigger] taxonomies[i].categories[k]).id
                != row.category_id) ==> named_assignment(taxonomies, row).category_name
            == row.category_id,
{
    law_known_taxonomy_is_named(taxonomies, i);
    if forall|k: int|
        0 <= k < taxonomies[i].categories.len() ==> (#[trigger] taxonomies[i].categories[k]).id
            != row.category_id {
        law_category_of_another_taxonomy_stands_for_itself(taxonomies, i, row.category_id);
    }
}

/// A row is shown by the names of its taxonomy and its category where both are
/// known, whatever the row's weight or source.
pub proof fn law_row_is_shown_with_its_category(
    taxonomies: Seq<TaxonomyWithCategoriesView>,
    row: AssignmentView,
    i: int,
    k: int,
)
    requires
        0 <= i < taxonomies.len(),
        taxonomies[i].taxonomy.id == row.taxonomy_id,
        forall|j: int|
            i < j < taxonomies.len() ==> (#[trigger] taxonomies[j]).taxonomy.id != row.taxonomy_id,
        0 <= k < taxonomies[i].categories.len(),
        taxonomies[i].categories[k].id == row.category_id,
        forall|j: int|
            k < j < taxonomies[i].categories.len() ==> (#[trigger] taxonomies[i].categories[j]).id
                != row.category_id,
    ensures
        named_assignment(taxonomies, row).taxonomy_name == taxonomies[i].taxonomy.name,
        named_assignment(taxonomies, row).category_name == taxonomies[i].categories[k].name,
{
    law_known_taxonomy_is_named(taxonomies, i);
    law_known_category_is_named(taxonomies, i, k);
}

/// A row of a taxonomy that is not known is shown by its ids.
pub proof fn law_row_of_an_unknown_taxonomy_is_shown_by_its_ids(
    taxonomies: Seq<TaxonomyWithCategoriesView>,
    row: AssignmentView,
)
    requires
        forall|j: int|
            0 <= j < taxonomies.len() ==> (#[trigger] taxonomies[j]).taxonomy.id
                != row.taxonomy_id,
    ensures
        named_assignment(taxonomies, row).taxonomy_name == row.taxonomy_id,
        named_assignment(taxonomies, row).category_name == row.category_id,
{
    law_unknown_ids_stand_for_themselves(taxonomies, row.taxonomy_id, row.category_id);
}

/// The view of a shown assignment holds each of its fields.
pub proof fn law_taxonomy_assignment_dto_view(dto: TaxonomyAssignmentDto)
    ensures
        dto@.taxonomy_id == dto.taxonomy_id@,
        dto@.taxonomy_name == dto.taxonomy_name@,
        dto@.category_id == dto.category_id@,
        dto@.category_name == dto.category_name@,
        dto@.weight_basis_points == dto.weight_basis_points,
        dto@.source == dto.source@,
{
}

} // verus!
