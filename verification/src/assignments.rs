//! Assignments of assets to categories: which calls on the store make them.
use crate::assignment_store::{belongs_to, rows_of};
use crate::errors::Error;
use crate::models::{
    assignments_view, new_assignments_view, AssetTaxonomyAssignment, AssignmentView,
    NewAssetTaxonomyAssignment, NewAssignmentView, Taxonomy,
};
use crate::taxonomy_service::TaxonomyService;
use vstd::prelude::*;

verus! {

impl<R: ?Sized> TaxonomyService<R> {
    /// Starts assigning an asset to a category.
    pub fn assign_asset_to_category(&self, assignment: NewAssetTaxonomyAssignment) -> (next:
        AssignmentLookup)
        ensures
            next.assignment == assignment,
    {
        AssignmentLookup { assignment }
    }

    /// Starts replacing all assignments of an asset in a taxonomy. The replacement
    /// is meant to happen as a whole or not at all: where a row cannot be stored,
    /// the former rows are put back, under dates of the store's own. They come back
    /// as far as the store takes the restoring calls (see [`Restoration`]).
    pub fn replace_asset_assignments(
        &self,
        asset_id: &str,
        taxonomy_id: &str,
        assignments: Vec<NewAssetTaxonomyAssignment>,
    ) -> (next: ReplacementLookup)
        ensures
            next.asset_id@ == asset_id@,
            next.taxonomy_id@ == taxonomy_id@,
            next.assignments == assignments,
    {
        ReplacementLookup {
            asset_id: asset_id.to_string(),
            taxonomy_id: taxonomy_id.to_string(),
            assignments,
        }
    }
}

/// An assignment begins: the next call is `get_taxonomy` on its taxonomy id.
pub struct AssignmentLookup {
    pub assignment: NewAssetTaxonomyAssignment,
}

/// What an assignment asks of the store next.
pub enum AssignmentStep {
    /// The asset's assignments in the taxonomy go first.
    Clear(AssignmentClearing),
    /// The next and last call is `upsert_assignment` on this assignment.
    Store(NewAssetTaxonomyAssignment),
}

/// An assignment that takes the place of others: the next call is
/// `delete_asset_assignments` on its asset id and taxonomy id.
pub struct AssignmentClearing {
    pub assignment: NewAssetTaxonomyAssignment,
}

impl AssignmentLookup {
    /// Decides how the assignment is stored once `get_taxonomy` has answered: in
    /// a single-select taxonomy it takes the place of all assignments of the
    /// asset.
    pub fn taxonomy_found(self, found: Result<Option<Taxonomy>, Error>) -> (next: Result<
        AssignmentStep,
        Error,
    >)
        ensures
            next == match found {
                Err(error) => Err::<AssignmentStep, Error>(error),
                Ok(Some(taxonomy)) if taxonomy.is_single_select => Ok(
                    AssignmentStep::Clear(AssignmentClearing { assignment: self.assignment }),
                ),
                Ok(_) => Ok(AssignmentStep::Store(self.assignment)),
            },
    {
        if let Some(taxonomy) = found? {
            if taxonomy.is_single_select {
                return Ok(
                    AssignmentStep::Clear(AssignmentClearing { assignment: self.assignment }),
                );
            }
        }
        Ok(AssignmentStep::Store(self.assignment))
    }
}

impl AssignmentClearing {
    /// Goes on with the assignment once `delete_asset_assignments` has answered:
    /// the next and last call is `upsert_assignment` on what is handed back.
    pub fn cleared(self, cleared: Result<usize, Error>) -> (next: Result<
        NewAssetTaxonomyAssignment,
        Error,
    >)
        ensures
            next == match cleared {
                Err(error) => Err::<NewAssetTaxonomyAssignment, Error>(error),
                Ok(_) => Ok(self.assignment),
            },
    {
        match cleared {
            Err(error) => Err(error),
            Ok(_) => Ok(self.assignment),
        }
    }
}

/// A replacement begins: the next call is `get_asset_assignments(asset_id)`.
pub struct ReplacementLookup {
    pub asset_id: String,
    pub taxonomy_id: String,
    pub assignments: Vec<NewAssetTaxonomyAssignment>,
}

/// A replacement that may clear the former rows: the next call is
/// `delete_asset_assignments(asset_id, taxonomy_id)`.
pub struct ReplacementClearing {
    pub asset_id: String,
    pub taxonomy_id: String,
    pub assignments: Vec<NewAssetTaxonomyAssignment>,
    /// The former rows, as they are stored again if need be; none where they
    /// could not be read and nothing is to be stored.
    pub kept: Vec<NewAssetTaxonomyAssignment>,
}

/// A replacement of assignments under way.
pub struct Replacement {
    asset_id: String,
    taxonomy_id: String,
    kept: Vec<NewAssetTaxonomyAssignment>,
    /// What is still to be stored, the next one last.
    pending: Vec<NewAssetTaxonomyAssignment>,
    stored: Vec<AssetTaxonomyAssignment>,
}

pub struct ReplacementView {
    pub asset_id: Seq<char>,
    pub taxonomy_id: Seq<char>,
    /// The former rows, as they are stored again if need be.
    pub kept: Seq<NewAssignmentView>,
    /// What is still to be stored, in order.
    pub pending: Seq<NewAssignmentView>,
    /// What the store answered so far, in order.
    pub stored: Seq<AssignmentView>,
}

impl View for Replacement {
    type V = ReplacementView;

    closed spec fn view(&self) -> ReplacementView {
        ReplacementView {
            asset_id: self.asset_id@,
            taxonomy_id: self.taxonomy_id@,
            kept: new_assignments_view(self.kept@),
            pending: new_assignments_view(self.pending@).reverse(),
            stored: assignments_view(self.stored@),
        }
    }
}

/// What a replacement asks of the store next.
pub enum ReplacementStep {
    /// The next call is `upsert_assignment(assignment)`.
    Store { assignment: NewAssetTaxonomyAssignment, rest: Replacement },
    /// Everything is stored.
    Done(Vec<AssetTaxonomyAssignment>),
}

/// A replacement that failed and puts the former rows back.
///
/// Each call is made whatever the calls before it gave, so that as many of the
/// former rows come back as the store takes. The outcome is the error that the
/// replacement failed with, also where a call of the restoration fails.
pub struct Restoration {
    asset_id: String,
    taxonomy_id: String,
    /// The rows that were stored are still to be cleared.
    clears: bool,
    /// What is still to be stored again, the next one last.
    pending: Vec<NewAssetTaxonomyAssignment>,
    error: Error,
}

pub struct RestorationView {
    pub asset_id: Seq<char>,
    pub taxonomy_id: Seq<char>,
    /// The rows that were stored are still to be cleared.
    pub clears: bool,
    /// What is still to be stored again, in order.
    pub pending: Seq<NewAssignmentView>,
    /// What the replacement failed with.
    pub error: Error,
}

impl View for Restoration {
    type V = RestorationView;

    closed spec fn view(&self) -> RestorationView {
        RestorationView {
            asset_id: self.asset_id@,
            taxonomy_id: self.taxonomy_id@,
            clears: self.clears,
            pending: new_assignments_view(self.pending@).reverse(),
            error: self.error,
        }
    }
}

/// What a restoration asks of the store next.
pub enum RestorationStep {
    /// The next call is `delete_asset_assignments(asset_id, taxonomy_id)`.
    Clear { asset_id: String, taxonomy_id: String, rest: Restoration },
    /// The next call is `upsert_assignment(assignment)`.
    Store { assignment: NewAssetTaxonomyAssignment, rest: Restoration },
    /// The replacement has failed with this error.
    Failed(Error),
}

/// The assignment that stores a row again, under its id.
pub open spec fn kept_assignment(row: AssignmentView) -> NewAssignmentView {
    NewAssignmentView {
        id: Some(row.id),
        asset_id: row.asset_id,
        taxonomy_id: row.taxonomy_id,
        category_id: row.category_id,
        weight: row.weight,
        source: row.source,
    }
}

/// The assignments that store rows again, in order.
pub open spec fn kept_assignments(rows: Seq<AssignmentView>) -> Seq<NewAssignmentView> {
    rows.map_values(|row: AssignmentView| kept_assignment(row))
}

/// The rows of an asset in a taxonomy, as they are stored again if need be.
fn keep_rows(rows: &[AssetTaxonomyAssignment], asset_id: &String, taxonomy_id: &String) -> (kept:
    Vec<NewAssetTaxonomyAssignment>)
    ensures
        new_assignments_view(kept@) == kept_assignments(
            rows_of(assignments_view(rows@), asset_id@, taxonomy_id@),
        ),
{
    let ghost all = assignments_view(rows@);
    let ghost within = |row: AssignmentView| belongs_to(row, asset_id@, taxonomy_id@);
    let mut kept: Vec<NewAssetTaxonomyAssignment> = Vec::new();
    let mut i: usize = 0;
    proof {
        reveal(Seq::filter);
        assert(new_assignments_view(kept@) =~= kept_assignments(all.take(0).filter(within)));
    }
    while i < rows.len()
        invariant
            i <= rows@.len(),
            all == assignments_view(rows@),
            within == (|row: AssignmentView| belongs_to(row, asset_id@, taxonomy_id@)),
            new_assignments_view(kept@) == kept_assignments(all.take(i as int).filter(within)),
        decreases rows@.len() - i,
    {
        let ghost before = kept@;
        let row = &rows[i];
        if row.asset_id == *asset_id && row.taxonomy_id == *taxonomy_id {
            kept.push(
                NewAssetTaxonomyAssignment {
                    id: Some(row.id.clone()),
                    asset_id: row.asset_id.clone(),
                    taxonomy_id: row.taxonomy_id.clone(),
                    category_id: row.category_id.clone(),
                    weight: row.weight,
                    source: row.source.clone(),
                },
            );
        }
        proof {
            reveal(Seq::filter);
            let front = all.take(i as int);
            assert(all.take(i + 1).drop_last() =~= front);
            assert(all.take(i + 1).last() == row@);
            if within(row@) {
                assert(kept@.last()@ == kept_assignment(row@));
                assert(new_assignments_view(kept@) =~= new_assignments_view(before).push(
                    kept_assignment(row@),
                ));
                assert(kept_assignments(front.filter(within).push(row@)) =~= kept_assignments(
                    front.filter(within),
                ).push(kept_assignment(row@)));
            }
        }
        i = i + 1;
    }
    assert(all.take(all.len() as int) =~= all);
    kept
}

/// The assignments in reverse.
fn reversed(assignments: Vec<NewAssetTaxonomyAssignment>) -> (reversed: Vec<
    NewAssetTaxonomyAssignment,
>)
    ensures
        new_assignments_view(reversed@).reverse() == new_assignments_view(assignments@),
{
    let ghost all = new_assignments_view(assignments@);
    let mut left = assignments;
    let mut reversed: Vec<NewAssetTaxonomyAssignment> = Vec::new();
    while left.len() > 0
        invariant
            left@.len() + reversed@.len() == all.len(),
            new_assignments_view(left@) == all.take(left@.len() as int),
            new_assignments_view(reversed@).reverse() == all.skip(left@.len() as int),
        decreases left@.len(),
    {
        let ghost before = left@;
        let ghost held = reversed@;
        if let Some(assignment) = left.pop() {
            reversed.push(assignment);
            proof {
                assert(new_assignments_view(before)[left@.len() as int] == assignment@);
                assert(new_assignments_view(left@) =~= all.take(left@.len() as int));
                assert(new_assignments_view(reversed@) =~= new_assignments_view(held).push(
                    assignment@,
                ));
                assert(new_assignments_view(reversed@).reverse() =~= seq![assignment@]
                    + new_assignments_view(held).reverse());
                assert(new_assignments_view(reversed@).reverse() =~= all.skip(left@.len() as int));
            }
        }
    }
    assert(all.skip(0) =~= all);
    reversed
}

impl ReplacementLookup {
    /// Goes on with the replacement once `get_asset_assignments` has answered: the
    /// rows of the asset in the taxonomy are kept until the new ones are stored.
    /// Where the rows cannot be read, new rows are refused, for a failure to store
    /// one could not be undone. Without new rows there is nothing to undo, and the
    /// replacement goes on to clear the former ones.
    pub fn assignments_found(
        self,
        found: Result<Vec<AssetTaxonomyAssignment>, Error>,
    ) -> (next: Result<ReplacementClearing, Error>)
        ensures
            match found {
                Err(error) => if self.assignments@.len() > 0 {
                    next == Err::<ReplacementClearing, Error>(error)
                } else {
                    next matches Ok(clearing) && clearing.asset_id == self.asset_id
                        && clearing.taxonomy_id == self.taxonomy_id && clearing.assignments
                        == self.assignments && clearing.kept@.len() == 0
                },
                Ok(rows) => next matches Ok(clearing) && clearing.asset_id == self.asset_id
                    && clearing.taxonomy_id == self.taxonomy_id && clearing.assignments
                    == self.assignments && new_assignments_view(clearing.kept@)
                    == kept_assignments(
                    rows_of(assignments_view(rows@), self.asset_id@, self.taxonomy_id@),
                ),
            },
    {
        let kept = match found {
            Err(error) => {
                if self.assignments.len() > 0 {
                    return Err(error);
                }
                Vec::new()
            },
            Ok(rows) => keep_rows(rows.as_slice(), &self.asset_id, &self.taxonomy_id),
        };
        Ok(
            ReplacementClearing {
                asset_id: self.asset_id,
                taxonomy_id: self.taxonomy_id,
                assignments: self.assignments,
                kept,
            },
        )
    }
}

impl ReplacementClearing {
    /// Goes on with the replacement once `delete_asset_assignments` has answered.
    pub fn cleared(self, cleared: Result<usize, Error>) -> (next: Result<Replacement, Error>)
        ensures
            match cleared {
                Err(error) => next == Err::<Replacement, Error>(error),
                Ok(_) => next matches Ok(replacement) && replacement@ == (ReplacementView {
                    asset_id: self.asset_id@,
                    taxonomy_id: self.taxonomy_id@,
                    kept: new_assignments_view(self.kept@),
                    pending: new_assignments_view(self.assignments@),
                    stored: Seq::empty(),
                }),
            },
    {
        match cleared {
            Err(error) => Err(error),
            Ok(_) => {
                let replacement = Replacement {
                    asset_id: self.asset_id,
                    taxonomy_id: self.taxonomy_id,
                    kept: self.kept,
                    pending: reversed(self.assignments),
                    stored: Vec::new(),
                };
                assert(replacement@.stored =~= Seq::empty());
                Ok(replacement)
            },
        }
    }
}

impl Replacement {
    /// The next call of the replacement, or its outcome.
    pub fn next(self) -> (step: ReplacementStep)
        ensures
            if self@.pending.len() == 0 {
                step matches ReplacementStep::Done(rows) && assignments_view(rows@) == self@.stored
            } else {
                step matches ReplacementStep::Store { assignment, rest } && assignment@
                    == self@.pending.first() && rest@ == (ReplacementView {
                    pending: self@.pending.drop_first(),
                    ..self@
                })
            },
    {
        let mut pending = self.pending;
        let ghost before = pending@;
        match pending.pop() {
            None => ReplacementStep::Done(self.stored),
            Some(assignment) => {
                let rest = Replacement {
                    asset_id: self.asset_id,
                    taxonomy_id: self.taxonomy_id,
                    kept: self.kept,
                    pending,
                    stored: self.stored,
                };
                assert(self@.pending.first() == new_assignments_view(before).last());
                assert(rest@.pending =~= self@.pending.drop_first());
                ReplacementStep::Store { assignment, rest }
            },
        }
    }

    /// Goes on with the replacement once `upsert_assignment` has answered. Where
    /// the row was not stored, the former rows are put back.
    pub fn assignment_stored(self, answer: Result<AssetTaxonomyAssignment, Error>) -> (next: Result<
        Replacement,
        Restoration,
    >)
        ensures
            match answer {
                Err(error) => next matches Err(restoration) && restoration@ == (RestorationView {
                    asset_id: self@.asset_id,
                    taxonomy_id: self@.taxonomy_id,
                    clears: true,
                    pending: self@.kept,
                    error,
                }),
                Ok(row) => next matches Ok(replacement) && replacement@ == (ReplacementView {
                    stored: self@.stored.push(row@),
                    ..self@
                }),
            },
    {
        match answer {
            Err(error) => Err(
                Restoration {
                    asset_id: self.asset_id,
                    taxonomy_id: self.taxonomy_id,
                    clears: true,
                    pending: reversed(self.kept),
                    error,
                },
            ),
            Ok(row) => {
                let mut stored = self.stored;
                stored.push(row);
                let replacement = Replacement {
                    asset_id: self.asset_id,
                    taxonomy_id: self.taxonomy_id,
                    kept: self.kept,
                    pending: self.pending,
                    stored,
                };
                assert(replacement@.stored =~= self@.stored.push(row@));
                Ok(replacement)
            },
        }
    }
}

impl Restoration {
    /// The next call of the restoration, or the outcome of the replacement.
    pub fn next(self) -> (step: RestorationStep)
        ensures
            if self@.clears {
                step matches RestorationStep::Clear { asset_id, taxonomy_id, rest } && asset_id@
                    == self@.asset_id && taxonomy_id@ == self@.taxonomy_id && rest@ == (
                RestorationView { clears: false, ..self@ })
            } else if self@.pending.len() > 0 {
                step matches RestorationStep::Store { assignment, rest } && assignment@
                    == self@.pending.first() && rest@ == (RestorationView {
                    pending: self@.pending.drop_first(),
                    ..self@
                })
            } else {
                step == RestorationStep::Failed(self@.error)
            },
    {
        if self.clears {
            let asset_id = self.asset_id.clone();
            let taxonomy_id = self.taxonomy_id.clone();
            return RestorationStep::Clear {
                asset_id,
                taxonomy_id,
                rest: Restoration { clears: false, ..self },
            };
        }
        let mut pending = self.pending;
        let ghost before = pending@;
        match pending.pop() {
            None => RestorationStep::Failed(self.error),
            Some(assignment) => {
                let rest = Restoration {
                    asset_id: self.asset_id,
                    taxonomy_id: self.taxonomy_id,
                    clears: false,
                    pending,
                    error: self.error,
                };
                assert(self@.pending.first() == new_assignments_view(before).last());
                assert(rest@.pending =~= self@.pending.drop_first());
                RestorationStep::Store { assignment, rest }
            },
        }
    }
}

} // verus!
