//! The tool that replaces how an asset is classified within a taxonomy.
//!
//! The weights are checked first: a call with bad weights reaches no service.
//! Then the asset is found by its symbol, its assignments in the taxonomy are
//! replaced by the taxonomy service, and the answer is shown with names. The
//! service replaces them as a whole or puts the former ones back, as far as its
//! store lets it and under dates of the store's own.
use crate::assignment_store::stores_assignment;
use crate::errors::AiError;
use crate::models::{
    assignments_view, new_assignments_view, taxonomies_view, Asset, AssetTaxonomyAssignment,
    AssignmentView, NewAssetTaxonomyAssignment, NewAssignmentView, TaxonomyWithCategories,
    TaxonomyWithCategoriesView,
};
use crate::text::{decimal, decimal_text, signed_decimal, signed_decimal_text};
use crate::tools::asset_taxonomy_assignments::{resolution, resolve_symbol, SYMBOL_DESCRIPTION};
use crate::tools::definition::{
    text_parameter, Field, FieldView, Parameter, ParameterKind, ParameterKindView, ParameterView,
    ToolDefinition, ToolDefinitionView, ValueKind,
};
use crate::tools::names::{
    category_name_anywhere, law_known_category_is_named_anywhere,
    law_unknown_ids_stand_for_themselves, CategoryNames,
};
use std::sync::Arc;
use vstd::prelude::*;

verus! {

/// The name of the tool.
pub const NAME: &'static str = "set_asset_taxonomy_assignments";

/// What the tool does, as the agent is told.
pub const DESCRIPTION: &'static str = "Atomically replace all taxonomy assignments for an asset within a given taxonomy. Weights are in basis points (10000 = 100%). Partial allocation is allowed; the response includes unallocated_basis_points. Pass an empty assignments list to clear all assignments. Example: [{\"categoryId\": \"US\", \"weightBasisPoints\": 6000}, {\"categoryId\": \"EU\", \"weightBasisPoints\": 4000}]";

/// What the parameter `taxonomyId` is.
pub const TAXONOMY_ID_DESCRIPTION: &'static str = "Taxonomy ID to replace assignments for (use list_taxonomies to discover IDs)";

/// What the parameter `assignments` is.
pub const ASSIGNMENTS_DESCRIPTION: &'static str = "New assignment rows. Empty array clears all assignments.";

/// What the field `categoryId` of an assignment is.
pub const CATEGORY_ID_DESCRIPTION: &'static str = "Category ID within the taxonomy";

/// What the field `weightBasisPoints` of an assignment is.
pub const WEIGHT_DESCRIPTION: &'static str = "Weight in basis points (0–10000, where 10000 = 100%)";

/// The whole of an asset, in basis points.
pub const FULL_ALLOCATION: i32 = 10000;

/// One assignment that is asked for.
#[derive(Debug, Clone)]
pub struct AssignmentInput {
    pub category_id: String,
    /// Weight in basis points (0 to 10000, where 10000 = 100%).
    pub weight_basis_points: i32,
}

pub struct AssignmentInputView {
    pub category_id: Seq<char>,
    pub weight: int,
}

impl View for AssignmentInput {
    type V = AssignmentInputView;

    open spec fn view(&self) -> AssignmentInputView {
        AssignmentInputView {
            category_id: self.category_id@,
            weight: self.weight_basis_points as int,
        }
    }
}

/// The views of a list of assignments that are asked for.
pub open spec fn inputs_view(inputs: Seq<AssignmentInput>) -> Seq<AssignmentInputView> {
    inputs.map_values(|input: AssignmentInput| input@)
}

/// Arguments of the tool.
#[derive(Debug)]
pub struct SetAssetTaxonomyAssignmentsArgs {
    /// Ticker symbol of the asset, such as "AAPL" or "VWRL.MI".
    pub symbol: String,
    /// The taxonomy whose assignments are replaced.
    pub taxonomy_id: String,
    /// The new assignments; with none, all assignments are cleared.
    pub assignments: Vec<AssignmentInput>,
}

/// One assignment as it is stored.
#[derive(Debug, Clone)]
pub struct AssignmentOutput {
    pub category_id: String,
    pub category_name: String,
    pub weight_basis_points: i32,
    pub source: String,
}

pub struct AssignmentOutputView {
    pub category_id: Seq<char>,
    pub category_name: Seq<char>,
    pub weight_basis_points: i32,
    pub source: Seq<char>,
}

impl View for AssignmentOutput {
    type V = AssignmentOutputView;

    open spec fn view(&self) -> AssignmentOutputView {
        AssignmentOutputView {
            category_id: self.category_id@,
            category_name: self.category_name@,
            weight_basis_points: self.weight_basis_points,
            source: self.source@,
        }
    }
}

/// Output of the tool.
#[derive(Debug, Clone)]
pub struct SetAssetTaxonomyAssignmentsOutput {
    pub assignments: Vec<AssignmentOutput>,
    /// Basis points that are not allocated; 0 where the asset is fully allocated.
    pub unallocated_basis_points: i32,
}

/// The sum of the weights.
pub open spec fn total_weight(inputs: Seq<AssignmentInputView>) -> int
    decreases inputs.len(),
{
    if inputs.len() == 0 {
        0
    } else {
        total_weight(inputs.drop_last()) + inputs.last().weight
    }
}

/// A weight that is no share of an asset.
pub open spec fn is_bad_weight(weight: int) -> bool {
    weight < 0 || weight > FULL_ALLOCATION
}

/// The first assignment with a bad weight.
pub open spec fn first_bad(inputs: Seq<AssignmentInputView>) -> Option<AssignmentInputView>
    decreases inputs.len(),
{
    if inputs.len() == 0 {
        None
    } else {
        match first_bad(inputs.drop_last()) {
            Some(input) => Some(input),
            None => if is_bad_weight(inputs.last().weight) {
                Some(inputs.last())
            } else {
                None
            },
        }
    }
}

/// The message for a bad weight.
pub open spec fn bad_weight_message(input: AssignmentInputView) -> Seq<char> {
    (if input.weight < 0 {
        "weight_basis_points must be >= 0, got "@
    } else {
        "weight_basis_points must be <= 10000, got "@
    }) + signed_decimal(input.weight) + " for category '"@ + input.category_id + "'"@
}

/// The message for weights that add up to more than the whole.
pub open spec fn over_allocated_message(total: int) -> Seq<char> {
    "Total weight_basis_points ("@ + decimal(total as nat) + ") exceeds 10000 (100%)"@
}

/// The total of the weights where they are acceptable, or the message that says
/// why they are not.
pub open spec fn validation(inputs: Seq<AssignmentInputView>) -> Result<int, Seq<char>> {
    match first_bad(inputs) {
        Some(input) => Err(bad_weight_message(input)),
        None => if total_weight(inputs) > FULL_ALLOCATION {
            Err(over_allocated_message(total_weight(inputs)))
        } else {
            Ok(total_weight(inputs))
        },
    }
}

/// Weights without a bad one among them add up to a share of as many assets as
/// there are weights.
proof fn lemma_total_bounds(inputs: Seq<AssignmentInputView>)
    requires
        first_bad(inputs) is None,
    ensures
        0 <= total_weight(inputs) <= FULL_ALLOCATION * inputs.len(),
    decreases inputs.len(),
{
    if inputs.len() > 0 {
        lemma_total_bounds(inputs.drop_last());
    }
}

/// The first bad assignment of a list is the first of every longer list.
proof fn lemma_first_bad_of_prefix(inputs: Seq<AssignmentInputView>, n: int)
    requires
        0 <= n <= inputs.len(),
        first_bad(inputs.take(n)) is Some,
    ensures
        first_bad(inputs) == first_bad(inputs.take(n)),
    decreases inputs.len(),
{
    if n < inputs.len() {
        assert(inputs.drop_last().take(n) =~= inputs.take(n));
        lemma_first_bad_of_prefix(inputs.drop_last(), n);
    } else {
        assert(inputs.take(n) =~= inputs);
    }
}

/// Accepted weights leave a share between nothing and the whole unallocated, and
/// each of them is a share too.
pub proof fn law_accepted_weights_are_shares(inputs: Seq<AssignmentInputView>)
    requires
        validation(inputs) is Ok,
    ensures
        0 <= validation(inputs)->Ok_0 <= 10000,
        validation(inputs)->Ok_0 == total_weight(inputs),
        forall|i: int| 0 <= i < inputs.len() ==> 0 <= (#[trigger] inputs[i]).weight <= 10000,
{
    lemma_total_bounds(inputs);
    assert forall|i: int| 0 <= i < inputs.len() implies 0 <= (#[trigger] inputs[i]).weight
        <= FULL_ALLOCATION by {
        let prefix = inputs.take(i + 1);
        if is_bad_weight(prefix.last().weight) {
            assert(first_bad(prefix) is Some);
            lemma_first_bad_of_prefix(inputs, i + 1);
        }
    }
}

/// Weights are accepted exactly where each is a share and together they are at
/// most the whole.
pub proof fn law_acceptance(inputs: Seq<AssignmentInputView>)
    ensures
        validation(inputs) is Ok <==> total_weight(inputs) <= 10000 && (forall|i: int|
            0 <= i < inputs.len() ==> 0 <= (#[trigger] inputs[i]).weight <= 10000),
    decreases inputs.len(),
{
    if validation(inputs) is Ok {
        law_accepted_weights_are_shares(inputs);
    } else if first_bad(inputs) is Some {
        lemma_first_bad_is_bad(inputs);
    }
}

proof fn lemma_first_bad_is_bad(inputs: Seq<AssignmentInputView>)
    requires
        first_bad(inputs) is Some,
    ensures
        exists|i: int| 0 <= i < inputs.len() && is_bad_weight((#[trigger] inputs[i]).weight),
    decreases inputs.len(),
{
    if first_bad(inputs.drop_last()) is Some {
        lemma_first_bad_is_bad(inputs.drop_last());
        let i = choose|i: int|
            0 <= i < inputs.drop_last().len() && is_bad_weight(
                (#[trigger] inputs.drop_last()[i]).weight,
            );
        assert(inputs[i] == inputs.drop_last()[i]);
    } else {
        assert(inputs[inputs.len() - 1] == inputs.last());
    }
}

/// Checks the weights before anything is written. Gives their total where they
/// are acceptable, and otherwise the error that describes the violation.
pub fn validate_weights(assignments: &[AssignmentInput]) -> (total: Result<i32, AiError>)
    ensures
        match validation(inputs_view(assignments@)) {
            Ok(sum) => total matches Ok(total) && total == sum,
            Err(message) => total matches Err(error) && error.text() == message,
        },
{
    let ghost inputs = inputs_view(assignments@);
    let mut i: usize = 0;
    let mut total: i128 = 0;
    assert(inputs.take(0) =~= Seq::empty());
    while i < assignments.len()
        invariant
            i <= assignments@.len(),
            inputs == inputs_view(assignments@),
            first_bad(inputs.take(i as int)) is None,
            total == total_weight(inputs.take(i as int)),
            0 <= total <= FULL_ALLOCATION * i,
        decreases assignments@.len() - i,
    {
        proof {
            assert(inputs.take(i + 1).drop_last() =~= inputs.take(i as int));
            if is_bad_weight(inputs[i as int].weight) {
                lemma_first_bad_of_prefix(inputs, i + 1);
            }
        }
        let weight: i32 = assignments[i].weight_basis_points;
        if weight < 0 {
            return Err(
                AiError::ToolExecutionFailed(
                    "weight_basis_points must be >= 0, got ".to_string().concat(
                        signed_decimal_text(weight).as_str(),
                    ).concat(" for category '").concat(
                        assignments[i].category_id.as_str(),
                    ).concat("'"),
                ),
            );
        }
        if weight > FULL_ALLOCATION {
            return Err(
                AiError::ToolExecutionFailed(
                    "weight_basis_points must be <= 10000, got ".to_string().concat(
                        signed_decimal_text(weight).as_str(),
                    ).concat(" for category '").concat(
                        assignments[i].category_id.as_str(),
                    ).concat("'"),
                ),
            );
        }
        total = total + weight as i128;
        i = i + 1;
    }
    assert(inputs.take(inputs.len() as int) =~= inputs);
    if total > FULL_ALLOCATION as i128 {
        return Err(
            AiError::ToolExecutionFailed(
                "Total weight_basis_points (".to_string().concat(
                    decimal_text(total as u128).as_str(),
                ).concat(") exceeds 10000 (100%)"),
            ),
        );
    }
    Ok(total as i32)
}

/// The row that is stored for one assignment that is asked for.
pub open spec fn asked_row(
    asset_id: Seq<char>,
    taxonomy_id: Seq<char>,
    input: AssignmentInputView,
) -> NewAssignmentView {
    NewAssignmentView {
        id: None,
        asset_id,
        taxonomy_id,
        category_id: input.category_id,
        weight: input.weight as i32,
        source: "ai"@,
    }
}

/// The rows that are stored for the assignments that are asked for, in order.
pub open spec fn asked_rows(
    asset_id: Seq<char>,
    taxonomy_id: Seq<char>,
    inputs: Seq<AssignmentInputView>,
) -> Seq<NewAssignmentView> {
    inputs.map_values(|input: AssignmentInputView| asked_row(asset_id, taxonomy_id, input))
}

/// What the tool shows of a stored assignment.
pub open spec fn shown_assignment(
    taxonomies: Seq<TaxonomyWithCategoriesView>,
    row: AssignmentView,
) -> AssignmentOutputView {
    AssignmentOutputView {
        category_id: row.category_id,
        category_name: category_name_anywhere(taxonomies, row.category_id),
        weight_basis_points: row.weight,
        source: row.source,
    }
}

/// The parameter that holds the new assignments.
pub open spec fn assignments_parameter() -> ParameterView {
    ParameterView {
        name: "assignments"@,
        description: ASSIGNMENTS_DESCRIPTION@,
        kind: ParameterKindView::Rows(
            seq![
                FieldView {
                    name: "categoryId"@,
                    description: CATEGORY_ID_DESCRIPTION@,
                    kind: ValueKind::Text,
                },
                FieldView {
                    name: "weightBasisPoints"@,
                    description: WEIGHT_DESCRIPTION@,
                    kind: ValueKind::Integer,
                },
            ],
        ),
        required: true,
    }
}

/// The tool, with the environment that it reaches the services through.
pub struct SetAssetTaxonomyAssignmentsTool<E> {
    env: Arc<E>,
}

impl<E> SetAssetTaxonomyAssignmentsTool<E> {
    /// The environment of the tool.
    pub closed spec fn environment(&self) -> Arc<E> {
        self.env
    }

    pub fn new(env: Arc<E>) -> (tool: Self)
        ensures
            tool.environment() == env,
    {
        Self { env }
    }

    /// The environment of the tool.
    pub fn env(&self) -> (env: &Arc<E>)
        ensures
            *env == self.environment(),
    {
        &self.env
    }

    /// The definition of the tool: it takes the symbol of the asset, the id of
    /// the taxonomy and the new assignments, and all three are required.
    pub fn definition(&self) -> (definition: ToolDefinition)
        ensures
            definition@ == (ToolDefinitionView {
                name: NAME@,
                description: DESCRIPTION@,
                parameters: seq![
                    text_parameter("symbol"@, SYMBOL_DESCRIPTION@, true),
                    text_parameter("taxonomyId"@, TAXONOMY_ID_DESCRIPTION@, true),
                    assignments_parameter(),
                ],
            }),
    {
        let mut fields: Vec<Field> = Vec::new();
        fields.push(Field::new("categoryId", CATEGORY_ID_DESCRIPTION, ValueKind::Text));
        fields.push(Field::new("weightBasisPoints", WEIGHT_DESCRIPTION, ValueKind::Integer));
        let assignments = Parameter {
            name: "assignments".to_string(),
            description: ASSIGNMENTS_DESCRIPTION.to_string(),
            kind: ParameterKind::Rows(fields),
            required: true,
        };
        assert(assignments@.kind->Rows_0 =~= assignments_parameter().kind->Rows_0);
        assert(assignments@ == assignments_parameter());
        let mut parameters: Vec<Parameter> = Vec::new();
        parameters.push(Parameter::text("symbol", SYMBOL_DESCRIPTION, true));
        parameters.push(Parameter::text("taxonomyId", TAXONOMY_ID_DESCRIPTION, true));
        parameters.push(assignments);
        let definition = ToolDefinition {
            name: NAME.to_string(),
            description: DESCRIPTION.to_string(),
            parameters,
        };
        assert(definition@.parameters =~= seq![
            text_parameter("symbol"@, SYMBOL_DESCRIPTION@, true),
            text_parameter("taxonomyId"@, TAXONOMY_ID_DESCRIPTION@, true),
            assignments_parameter(),
        ]);
        definition
    }

    /// Starts a call of the tool: it goes on only where the weights are
    /// acceptable.
    pub fn call(&self, args: SetAssetTaxonomyAssignmentsArgs) -> (next: Result<
        ValidatedRequest,
        AiError,
    >)
        ensures
            match validation(inputs_view(args.assignments@)) {
                Ok(_) => next matches Ok(request) && request@ == args,
                Err(message) => next matches Err(error) && error.text() == message,
            },
    {
        match validate_weights(args.assignments.as_slice()) {
            Err(error) => Err(error),
            Ok(total) => Ok(ValidatedRequest { args, total }),
        }
    }
}

impl<E> Clone for SetAssetTaxonomyAssignmentsTool<E> {
    fn clone(&self) -> (tool: Self)
        ensures
            tool.environment() == self.environment(),
    {
        Self { env: self.env.clone() }
    }
}

/// A request with acceptable weights: the next call is `search_by_symbol` on its
/// symbol.
pub struct ValidatedRequest {
    args: SetAssetTaxonomyAssignmentsArgs,
    total: i32,
}

impl View for ValidatedRequest {
    type V = SetAssetTaxonomyAssignmentsArgs;

    closed spec fn view(&self) -> SetAssetTaxonomyAssignmentsArgs {
        self.args
    }
}

/// A replacement that is asked of the taxonomy service: the next call is
/// `replace_asset_assignments(asset_id, taxonomy_id, assignments)`.
pub struct ReplacementRequest {
    pub asset_id: String,
    pub taxonomy_id: String,
    pub assignments: Vec<NewAssetTaxonomyAssignment>,
}

/// A call whose replacement is under way.
pub struct PendingReplacement {
    total: i32,
}

/// A call whose assignments are stored: the next call is
/// `get_taxonomies_with_categories()`.
pub struct StoredAssignments {
    rows: Vec<AssetTaxonomyAssignment>,
    total: i32,
}

impl ValidatedRequest {
    #[verifier::type_invariant]
    spec fn is_validated(&self) -> bool {
        validation(inputs_view(self.args.assignments@)) == Ok::<int, Seq<char>>(self.total as int)
    }

    /// The symbol to search for.
    pub fn symbol(&self) -> (symbol: &str)
        ensures
            symbol@ == self@.symbol@,
    {
        self.args.symbol.as_str()
    }

    /// Goes on once `search_by_symbol` has answered. The rows that are asked for
    /// carry the source "ai" and leave their ids to the store. Their weights are
    /// acceptable: no others are ever asked for.
    pub fn assets_found(self, found: Result<Vec<Asset>, String>) -> (next: Result<
        (ReplacementRequest, PendingReplacement),
        AiError,
    >)
        ensures
            match resolution(found, self@.symbol@) {
                Ok(id) => next matches Ok((request, pending)) && request.asset_id@ == id
                    && request.taxonomy_id == self@.taxonomy_id && new_assignments_view(
                    request.assignments@,
                ) == asked_rows(id, self@.taxonomy_id@, inputs_view(self@.assignments@))
                    && request.assignments@.len() == self@.assignments@.len() && (forall|i: int|
                    #![trigger request.assignments@[i]]
                    0 <= i < self@.assignments@.len() ==> {
                        let row = request.assignments@[i];
                        let input = self@.assignments@[i];
                        &&& row.id is None
                        &&& row.asset_id@ == id
                        &&& row.taxonomy_id@ == self@.taxonomy_id@
                        &&& row.category_id@ == input.category_id@
                        &&& row.weight == input.weight_basis_points
                        &&& row.source@ == "ai"@
                    })
                    && pending.allocated() == total_weight(inputs_view(self@.assignments@))
                    && validation(inputs_view(self@.assignments@)) is Ok,
                Err(message) => next matches Err(error) && error.text() == message,
            },
    {
        proof {
            use_type_invariant(&self);
            law_accepted_weights_are_shares(inputs_view(self.args.assignments@));
        }
        let asset_id = match resolve_symbol(found, self.args.symbol.as_str()) {
            Err(error) => {
                return Err(error);
            },
            Ok(asset_id) => asset_id,
        };
        let inputs = &self.args.assignments;
        let ghost views = inputs_view(inputs@);
        let mut assignments: Vec<NewAssetTaxonomyAssignment> = Vec::new();
        let mut i: usize = 0;
        while i < inputs.len()
            invariant
                i <= inputs@.len(),
                assignments@.len() == i,
                forall|j: int|
                    0 <= j < i ==> (#[trigger] assignments@[j])@ == asked_row(
                        asset_id@,
                        self.args.taxonomy_id@,
                        inputs@[j]@,
                    ) && assignments@[j].id is None && assignments@[j].asset_id@ == asset_id@
                        && assignments@[j].taxonomy_id@ == self.args.taxonomy_id@
                        && assignments@[j].category_id@ == inputs@[j].category_id@
                        && assignments@[j].weight == inputs@[j].weight_basis_points
                        && assignments@[j].source@ == "ai"@,
            decreases inputs@.len() - i,
        {
            assignments.push(
                NewAssetTaxonomyAssignment {
                    id: None,
                    asset_id: asset_id.clone(),
                    taxonomy_id: self.args.taxonomy_id.clone(),
                    category_id: inputs[i].category_id.clone(),
                    weight: inputs[i].weight_basis_points,
                    source: "ai".to_string(),
                },
            );
            i = i + 1;
        }
        assert(new_assignments_view(assignments@) =~= asked_rows(
            asset_id@,
            self.args.taxonomy_id@,
            views,
        ));
        let request = ReplacementRequest {
            asset_id,
            taxonomy_id: self.args.taxonomy_id,
            assignments,
        };
        Ok((request, PendingReplacement { total: self.total }))
    }
}

impl PendingReplacement {
    #[verifier::type_invariant]
    spec fn is_share(&self) -> bool {
        0 <= self.total <= FULL_ALLOCATION
    }

    /// The total of the weights that were asked for.
    pub closed spec fn allocated(&self) -> int {
        self.total as int
    }

    /// Goes on once `replace_asset_assignments` has answered.
    pub fn assignments_replaced(
        self,
        stored: Result<Vec<AssetTaxonomyAssignment>, String>,
    ) -> (next: Result<StoredAssignments, AiError>)
        ensures
            match stored {
                Err(reason) => next == Err::<StoredAssignments, AiError>(
                    AiError::ToolExecutionFailed(reason),
                ),
                Ok(rows) => next matches Ok(kept) && kept.stored() == assignments_view(rows@)
                    && kept.allocated() == self.allocated(),
            },
    {
        proof {
            use_type_invariant(&self);
        }
        match stored {
            Err(reason) => Err(AiError::ToolExecutionFailed(reason)),
            Ok(rows) => Ok(StoredAssignments { rows, total: self.total }),
        }
    }
}

impl StoredAssignments {
    #[verifier::type_invariant]
    spec fn is_share(&self) -> bool {
        0 <= self.total <= FULL_ALLOCATION
    }

    /// The total of the weights that were asked for.
    pub closed spec fn allocated(&self) -> int {
        self.total as int
    }

    /// The assignments as the service stored them.
    pub closed spec fn stored(&self) -> Seq<AssignmentView> {
        assignments_view(self.rows@)
    }

    /// Ends the call once the taxonomies have been read: each stored row is
    /// shown, in order, with the name of its category.
    pub fn taxonomies_found(self, found: Result<Vec<TaxonomyWithCategories>, String>) -> (outcome:
        Result<SetAssetTaxonomyAssignmentsOutput, AiError>)
        ensures
            match found {
                Err(reason) => outcome == Err::<SetAssetTaxonomyAssignmentsOutput, AiError>(
                    AiError::ToolExecutionFailed(reason),
                ),
                Ok(taxonomies) => outcome matches Ok(output) && output.assignments@.map_values(
                    |a: AssignmentOutput| a@,
                ) == self.stored().map_values(
                    |row: AssignmentView| shown_assignment(taxonomies_view(taxonomies@), row),
                ) && output.unallocated_basis_points == 10000 - self.allocated()
                    && output.assignments@.len() == self.stored().len() && (forall|i: int|
                    #![trigger output.assignments@[i]]
                    0 <= i < self.stored().len() ==> {
                        let shown = output.assignments@[i];
                        let row = self.stored()[i];
                        &&& shown.category_id@ == row.category_id
                        &&& shown.category_name@ == category_name_anywhere(
                            taxonomies_view(taxonomies@),
                            row.category_id,
                        )
                        &&& shown.weight_basis_points == row.weight
                        &&& shown.source@ == row.source
                    }),
            },
    {
        proof {
            use_type_invariant(&self);
        }
        let taxonomies = match found {
            Err(reason) => {
                return Err(AiError::ToolExecutionFailed(reason));
            },
            Ok(taxonomies) => taxonomies,
        };
        let names = CategoryNames::new(taxonomies.as_slice());
        let ghost source = taxonomies_view(taxonomies@);
        let rows = self.rows;
        let mut assignments: Vec<AssignmentOutput> = Vec::new();
        let mut i: usize = 0;
        while i < rows.len()
            invariant
                i <= rows@.len(),
                assignments@.len() == i,
                names.source() == source,
                forall|j: int|
                    0 <= j < i ==> (#[trigger] assignments@[j])@ == shown_assignment(
                        source,
                        rows@[j]@,
                    ) && assignments@[j].category_id@ == rows@[j]@.category_id
                        && assignments@[j].category_name@ == category_name_anywhere(
                        source,
                        rows@[j]@.category_id,
                    ) && assignments@[j].weight_basis_points == rows@[j]@.weight
                        && assignments@[j].source@ == rows@[j]@.source,
            decreases rows@.len() - i,
        {
            let row = &rows[i];
            assignments.push(
                AssignmentOutput {
                    category_id: row.category_id.clone(),
                    category_name: names.category_name(&row.category_id),
                    weight_basis_points: row.weight,
                    source: row.source.clone(),
                },
            );
            i = i + 1;
        }
        assert(assignments@.map_values(|a: AssignmentOutput| a@) =~= assignments_view(
            rows@,
        ).map_values(|row: AssignmentView| shown_assignment(source, row)));
        Ok(
            SetAssetTaxonomyAssignmentsOutput {
                assignments,
                unallocated_basis_points: FULL_ALLOCATION - self.total,
            },
        )
    }
}

/// The sum of the weights of stored rows.
pub open spec fn stored_weight(rows: Seq<AssignmentView>) -> int
    decreases rows.len(),
{
    if rows.len() == 0 {
        0
    } else {
        stored_weight(rows.drop_last()) + rows.last().weight
    }
}

/// What is stored and what is reported as unallocated make up the whole: where
/// the weights are accepted and the service stores the rows as it is asked to,
/// the stored weights and the unallocated basis points add up to 10000, and every
/// stored row carries the source "ai".
pub proof fn law_allocation_adds_up(
    asset_id: Seq<char>,
    taxonomy_id: Seq<char>,
    inputs: Seq<AssignmentInputView>,
    stored: Seq<AssignmentView>,
    unallocated: int,
)
    requires
        validation(inputs) is Ok,
        stored.len() == inputs.len(),
        forall|i: int|
            #![trigger stored[i]]
            0 <= i < stored.len() ==> stores_assignment(
                stored[i],
                asked_rows(asset_id, taxonomy_id, inputs)[i],
            ),
        unallocated == FULL_ALLOCATION - total_weight(inputs),
    ensures
        stored_weight(stored) + unallocated == 10000,
        0 <= unallocated <= 10000,
        forall|i: int| 0 <= i < stored.len() ==> (#[trigger] stored[i]).source == "ai"@,
{
    law_accepted_weights_are_shares(inputs);
    assert forall|i: int| 0 <= i < stored.len() implies (#[trigger] stored[i]).weight
        == inputs[i].weight && stored[i].source == "ai"@ by {
        assert(stores_assignment(stored[i], asked_rows(asset_id, taxonomy_id, inputs)[i]));
    }
    lemma_same_weights(inputs, stored);
}

proof fn lemma_same_weights(inputs: Seq<AssignmentInputView>, stored: Seq<AssignmentView>)
    requires
        stored.len() == inputs.len(),
        forall|i: int|
            0 <= i < stored.len() ==> (#[trigger] stored[i]).weight == inputs[i].weight,
    ensures
        stored_weight(stored) == total_weight(inputs),
    decreases stored.len(),
{
    if stored.len() > 0 {
        lemma_same_weights(inputs.drop_last(), stored.drop_last());
    }
}

/// The total of weights is made up of the weights: none make nothing, and one more
/// adds itself, wherever it stands.
pub proof fn law_total_is_the_sum(
    left: Seq<AssignmentInputView>,
    input: AssignmentInputView,
    right: Seq<AssignmentInputView>,
)
    ensures
        total_weight(Seq::empty()) == 0,
        total_weight(seq![input]) == input.weight,
        total_weight(left + right) == total_weight(left) + total_weight(right),
    decreases right.len(),
{
    assert(seq![input].drop_last() =~= Seq::empty());
    assert(total_weight(Seq::empty()) == 0);
    if right.len() == 0 {
        assert(left + right =~= left);
    } else {
        assert((left + right).drop_last() =~= left + right.drop_last());
        assert((left + right).last() == right.last());
        law_total_is_the_sum(left, input, right.drop_last());
    }
}

/// The first weight that is no share decides: it is refused with a message that
/// gives it and its category.
pub proof fn law_first_bad_weight_is_refused(inputs: Seq<AssignmentInputView>, i: int)
    requires
        0 <= i < inputs.len(),
        forall|j: int| 0 <= j < i ==> 0 <= (#[trigger] inputs[j]).weight <= 10000,
        inputs[i].weight < 0 || inputs[i].weight > 10000,
    ensures
        inputs[i].weight < 0 ==> validation(inputs) == Err::<int, Seq<char>>(
            "weight_basis_points must be >= 0, got "@ + signed_decimal(inputs[i].weight)
                + " for category '"@ + inputs[i].category_id + "'"@,
        ),
        inputs[i].weight > 10000 ==> validation(inputs) == Err::<int, Seq<char>>(
            "weight_basis_points must be <= 10000, got "@ + signed_decimal(inputs[i].weight)
                + " for category '"@ + inputs[i].category_id + "'"@,
        ),
{
    let front = inputs.take(i);
    if first_bad(front) is Some {
        lemma_first_bad_is_bad(front);
    }
    assert(inputs.take(i + 1).drop_last() =~= front);
    assert(inputs.take(i + 1).last() == inputs[i]);
    lemma_first_bad_of_prefix(inputs, i + 1);
}

/// Shares that are together more than the whole are refused with a message that
/// gives their sum; other shares are accepted with their sum.
pub proof fn law_shares_are_accepted_up_to_the_whole(inputs: Seq<AssignmentInputView>)
    requires
        forall|j: int| 0 <= j < inputs.len() ==> 0 <= (#[trigger] inputs[j]).weight <= 10000,
    ensures
        total_weight(inputs) <= 10000 ==> validation(inputs) == Ok::<int, Seq<char>>(
            total_weight(inputs),
        ),
        total_weight(inputs) > 10000 ==> validation(inputs) == Err::<int, Seq<char>>(
            "Total weight_basis_points ("@ + decimal(total_weight(inputs) as nat)
                + ") exceeds 10000 (100%)"@,
        ),
{
    if first_bad(inputs) is Some {
        lemma_first_bad_is_bad(inputs);
    }
}

/// Each row that is asked for holds what its input asked for: the asset, the
/// taxonomy, the category and the weight, the source "ai", and no id.
pub proof fn law_asked_rows_hold_the_inputs(
    asset_id: Seq<char>,
    taxonomy_id: Seq<char>,
    inputs: Seq<AssignmentInputView>,
)
    requires
        validation(inputs) is Ok,
    ensures
        asked_rows(asset_id, taxonomy_id, inputs).len() == inputs.len(),
        forall|i: int|
            #![trigger asked_rows(asset_id, taxonomy_id, inputs)[i]]
            0 <= i < inputs.len() ==> {
                let row = asked_rows(asset_id, taxonomy_id, inputs)[i];
                &&& row.id is None
                &&& row.asset_id == asset_id
                &&& row.taxonomy_id == taxonomy_id
                &&& row.category_id == inputs[i].category_id
                &&& row.weight == inputs[i].weight
                &&& row.source == "ai"@
            },
{
    law_accepted_weights_are_shares(inputs);
}

/// A stored row is shown with its own category, weight and source, whatever names
/// are known.
pub proof fn law_stored_row_is_shown_as_it_is(
    taxonomies: Seq<TaxonomyWithCategoriesView>,
    row: AssignmentView,
)
    ensures
        shown_assignment(taxonomies, row).category_id == row.category_id,
        shown_assignment(taxonomies, row).weight_basis_points == row.weight,
        shown_assignment(taxonomies, row).source == row.source,
{
}

/// A stored row is shown by the name of its category, the last with its id in any
/// taxonomy, whatever the row's weight or source.
pub proof fn law_stored_row_is_shown_with_its_category(
    taxonomies: Seq<TaxonomyWithCategoriesView>,
    row: AssignmentView,
    i: int,
    k: int,
)
    requires
        0 <= i < taxonomies.len(),
        0 <= k < taxonomies[i].categories.len(),
        taxonomies[i].categories[k].id == row.category_id,
        forall|j: int|
            k < j < taxonomies[i].categories.len() ==> (#[trigger] taxonomies[i].categories[j]).id
                != row.category_id,
        forall|j: int, m: int|
            #![trigger taxonomies[j].categories[m]]
            i < j < taxonomies.len() && 0 <= m < taxonomies[j].categories.len()
                ==> taxonomies[j].categories[m].id != row.category_id,
    ensures
        shown_assignment(taxonomies, row).category_name == taxonomies[i].categories[k].name,
{
    law_known_category_is_named_anywhere(taxonomies, i, k);
}

/// A stored row of a category that no taxonomy has is shown by the category's id.
pub proof fn law_stored_row_of_an_unknown_category_is_shown_by_its_id(
    taxonomies: Seq<TaxonomyWithCategoriesView>,
    row: AssignmentView,
)
    requires
        forall|j: int, k: int|
            #![trigger taxonomies[j].categories[k]]
            0 <= j < taxonomies.len() && 0 <= k < taxonomies[j].categories.len()
                ==> taxonomies[j].categories[k].id != row.category_id,
    ensures
        shown_assignment(taxonomies, row).category_name == row.category_id,
{
    law_unknown_ids_stand_for_themselves(taxonomies, row.taxonomy_id, row.category_id);
}

/// The sum of the weights that an output shows.
pub open spec fn shown_weight(rows: Seq<AssignmentOutputView>) -> int {
    rows.fold_left(0, |sum: int, row: AssignmentOutputView| sum + row.weight_basis_points)
}

/// What an output shows adds up: where the service stores the rows as it is asked
/// to, the weights that are shown and the unallocated basis points make 10000.
pub proof fn law_output_adds_up(
    asset_id: Seq<char>,
    taxonomy_id: Seq<char>,
    inputs: Seq<AssignmentInputView>,
    stored: Seq<AssignmentView>,
    taxonomies: Seq<TaxonomyWithCategoriesView>,
    unallocated: int,
)
    requires
        validation(inputs) is Ok,
        stored.len() == inputs.len(),
        forall|i: int|
            #![trigger stored[i]]
            0 <= i < stored.len() ==> stores_assignment(
                stored[i],
                asked_rows(asset_id, taxonomy_id, inputs)[i],
            ),
        unallocated == 10000 - total_weight(inputs),
    ensures
        shown_weight(
            stored.map_values(|row: AssignmentView| shown_assignment(taxonomies, row)),
        ) + unallocated == 10000,
        forall|i: int|
            #![trigger stored[i]]
            0 <= i < stored.len() ==> shown_assignment(
                taxonomies,
                stored[i],
            ).weight_basis_points == inputs[i].weight && shown_assignment(
                taxonomies,
                stored[i],
            ).category_id == inputs[i].category_id && shown_assignment(
                taxonomies,
                stored[i],
            ).source == "ai"@,
{
    law_allocation_adds_up(asset_id, taxonomy_id, inputs, stored, unallocated);
    law_accepted_weights_are_shares(inputs);
    lemma_shown_weights(stored, taxonomies);
    assert forall|i: int| #![trigger stored[i]] 0 <= i < stored.len() implies shown_assignment(
        taxonomies,
        stored[i],
    ).weight_basis_points == inputs[i].weight && shown_assignment(
        taxonomies,
        stored[i],
    ).category_id == inputs[i].category_id && shown_assignment(taxonomies, stored[i]).source
        == "ai"@ by {
        assert(stores_assignment(stored[i], asked_rows(asset_id, taxonomy_id, inputs)[i]));
    }
}

proof fn lemma_shown_weights(
    stored: Seq<AssignmentView>,
    taxonomies: Seq<TaxonomyWithCategoriesView>,
)
    ensures
        shown_weight(
            stored.map_values(|row: AssignmentView| shown_assignment(taxonomies, row)),
        ) == stored_weight(stored),
    decreases stored.len(),
{
    let show = |row: AssignmentView| shown_assignment(taxonomies, row);
    let rows = stored.map_values(show);
    reveal(Seq::fold_left);
    if stored.len() > 0 {
        lemma_shown_weights(stored.drop_last(), taxonomies);
        assert(rows.drop_last() =~= stored.drop_last().map_values(show));
        assert(rows.last() == show(stored.last()));
    }
}

/// The views of an input and of a shown assignment hold each of their fields, and
/// the view of a list of inputs holds the view of each, in place.
pub proof fn law_assignment_views(
    input: AssignmentInput,
    output: AssignmentOutput,
    inputs: Seq<AssignmentInput>,
)
    ensures
        input@.category_id == input.category_id@,
        input@.weight == input.weight_basis_points,
        output@.category_id == output.category_id@,
        output@.category_name == output.category_name@,
        output@.weight_basis_points == output.weight_basis_points,
        output@.source == output.source@,
        inputs_view(inputs).len() == inputs.len(),
        forall|i: int|
            #![trigger inputs_view(inputs)[i]]
            0 <= i < inputs.len() ==> inputs_view(inputs)[i] == inputs[i]@,
{
}

} // verus!
