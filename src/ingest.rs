//! Ingestion: the records read from the source, and the decisions of the
//! per-record transaction that writes one recipe with its child rows.
use vstd::prelude::*;

use crate::normalize::{normalized, views};
use crate::recipe::{CsvRecipe, Recipe};

verus! {

/// Where the transaction of one record stands.
#[derive(Debug, PartialEq, Eq)]
pub enum Stage {
    /// The recipe row is to be inserted.
    Parent,
    /// The ingredient at this position is to be inserted.
    Ingredient(usize),
    /// The dietary restriction at this position is to be inserted.
    Restriction(usize),
    /// Every row is inserted; the transaction is to be committed.
    Commit,
    /// An insert failed; the transaction is to be rolled back.
    Rollback,
}

/// What the store is asked to do next for the record.
#[derive(Debug, PartialEq, Eq)]
pub enum TxAction {
    /// Insert the scalar fields of the recipe, returning its new id.
    InsertRecipe,
    /// Insert an ingredient row for the recipe of this id.
    InsertIngredient(i64, String),
    /// Insert a dietary-restriction row for the recipe of this id.
    InsertRestriction(i64, String),
    /// Commit the transaction: the record is stored whole.
    Commit,
    /// Roll the transaction back: nothing of the record is stored.
    Rollback,
}

/// How the last insert went.
#[derive(Debug, PartialEq, Eq)]
pub enum TxEvent {
    /// The recipe row was inserted under this id.
    RecipeInserted(i64),
    /// A child row was inserted.
    RowInserted,
    /// The insert failed.
    Failed,
}

/// The stage after an insert at `stage`, of a record with `n_ing` ingredients
/// and `n_res` restrictions, that succeeded (`ok`) or failed.
pub open spec fn advance(stage: Stage, n_ing: nat, n_res: nat, ok: bool) -> Stage {
    if !ok {
        Stage::Rollback
    } else {
        match stage {
            Stage::Parent => if n_ing > 0 {
                Stage::Ingredient(0)
            } else if n_res > 0 {
                Stage::Restriction(0)
            } else {
                Stage::Commit
            },
            Stage::Ingredient(i) => if i + 1 < n_ing {
                Stage::Ingredient((i + 1) as usize)
            } else if n_res > 0 {
                Stage::Restriction(0)
            } else {
                Stage::Commit
            },
            Stage::Restriction(j) => if j + 1 < n_res {
                Stage::Restriction((j + 1) as usize)
            } else {
                Stage::Commit
            },
            Stage::Commit => Stage::Commit,
            Stage::Rollback => Stage::Rollback,
        }
    }
}

/// Whether an insert is awaited at `stage`.
pub open spec fn awaits_insert(stage: Stage) -> bool {
    stage is Parent || stage is Ingredient || stage is Restriction
}

/// The stage reached from `stage` by the outcomes of successive inserts; the
/// outcomes that come once the transaction is decided are not looked at.
pub open spec fn run(stage: Stage, n_ing: nat, n_res: nat, outcomes: Seq<bool>) -> Stage
    decreases outcomes.len(),
{
    if outcomes.len() == 0 || !awaits_insert(stage) {
        stage
    } else {
        run(advance(stage, n_ing, n_res, outcomes[0]), n_ing, n_res, outcomes.drop_first())
    }
}

/// The number of inserts that storing a record takes: its recipe row and
/// every child row.
pub open spec fn insert_count(n_ing: nat, n_res: nat) -> nat {
    1 + n_ing + n_res
}

/// The number of inserts that remain to be made at `stage`.
pub open spec fn remaining(stage: Stage, n_ing: nat, n_res: nat) -> nat {
    match stage {
        Stage::Parent => insert_count(n_ing, n_res),
        Stage::Ingredient(i) => (n_ing - i + n_res) as nat,
        Stage::Restriction(j) => (n_res - j) as nat,
        _ => 0,
    }
}

/// The stage is consistent with a record of `n_ing` ingredients and `n_res`
/// restrictions.
pub open spec fn stage_fits(stage: Stage, n_ing: nat, n_res: nat) -> bool {
    match stage {
        Stage::Ingredient(i) => i < n_ing,
        Stage::Restriction(j) => j < n_res,
        _ => true,
    }
}

/// The first `k` outcomes are there and all succeeded.
pub open spec fn all_succeeded(outcomes: Seq<bool>, k: nat) -> bool {
    outcomes.len() >= k && forall|i: int| 0 <= i < k ==> #[trigger] outcomes[i]
}

/// One of the first `k` outcomes, as far as they are there, failed.
pub open spec fn one_failed(outcomes: Seq<bool>, k: nat) -> bool {
    exists|i: int| 0 <= i < k && i < outcomes.len() && !#[trigger] outcomes[i]
}

proof fn lemma_outcomes_shift(outcomes: Seq<bool>, k: nat)
    requires
        outcomes.len() > 0,
        k >= 1,
    ensures
        all_succeeded(outcomes, k) <==> outcomes[0] && all_succeeded(
            outcomes.drop_first(),
            (k - 1) as nat,
        ),
        one_failed(outcomes, k) <==> !outcomes[0] || one_failed(outcomes.drop_first(), (k - 1) as nat),
{
    let rest = outcomes.drop_first();
    if all_succeeded(outcomes, k) {
        assert forall|i: int| 0 <= i < k - 1 implies #[trigger] rest[i] by {
            assert(outcomes[i + 1] == rest[i]);
        }
    }
    if outcomes[0] && all_succeeded(rest, (k - 1) as nat) {
        assert forall|i: int| 0 <= i < k implies #[trigger] outcomes[i] by {
            if i > 0 {
                assert(outcomes[i] == rest[i - 1]);
            }
        }
    }
    if one_failed(rest, (k - 1) as nat) {
        let i = choose|i: int| 0 <= i < k - 1 && i < rest.len() && !#[trigger] rest[i];
        assert(outcomes[i + 1] == rest[i]);
    }
    if one_failed(outcomes, k) && outcomes[0] {
        let i = choose|i: int| 0 <= i < k && i < outcomes.len() && !#[trigger] outcomes[i];
        assert(outcomes[i] == rest[i - 1]);
    }
    assert(!outcomes[0] ==> one_failed(outcomes, k));
}

proof fn lemma_run_all_or_nothing(stage: Stage, n_ing: nat, n_res: nat, outcomes: Seq<bool>)
    requires
        awaits_insert(stage),
        stage_fits(stage, n_ing, n_res),
        n_ing <= usize::MAX,
        n_res <= usize::MAX,
    ensures
        run(stage, n_ing, n_res, outcomes) is Commit <==> all_succeeded(
            outcomes,
            remaining(stage, n_ing, n_res),
        ),
        run(stage, n_ing, n_res, outcomes) is Rollback <==> one_failed(
            outcomes,
            remaining(stage, n_ing, n_res),
        ),
    decreases outcomes.len(),
{
    let k = remaining(stage, n_ing, n_res);
    if outcomes.len() == 0 {
        assert(k >= 1);
    } else {
        let next = advance(stage, n_ing, n_res, outcomes[0]);
        let rest = outcomes.drop_first();
        lemma_outcomes_shift(outcomes, k);
        assert(run(stage, n_ing, n_res, outcomes) == run(next, n_ing, n_res, rest));
        if !outcomes[0] {
            assert(next == Stage::Rollback);
            assert(run(next, n_ing, n_res, rest) == Stage::Rollback);
        } else {
            if awaits_insert(next) {
                lemma_run_all_or_nothing(next, n_ing, n_res, rest);
                assert(remaining(next, n_ing, n_res) == k - 1);
            } else {
                assert(next is Commit);
                assert(k == 1);
                assert(all_succeeded(rest, 0));
                assert(!one_failed(rest, 0));
                assert(run(next, n_ing, n_res, rest) == Stage::Commit);
            }
        }
    }
}

/// A record's transaction is all or nothing: fed the outcomes of its inserts
/// from the start, it reaches `Commit` exactly when its recipe row and every
/// child row were inserted, and `Rollback` exactly when one of those inserts
/// failed; it commits nothing after a failure.
pub proof fn lemma_commit_only_whole(n_ing: nat, n_res: nat, outcomes: Seq<bool>)
    requires
        n_ing <= usize::MAX,
        n_res <= usize::MAX,
    ensures
        ({
            let k = insert_count(n_ing, n_res);
            let end = run(Stage::Parent, n_ing, n_res, outcomes);
            &&& end is Commit <==> all_succeeded(outcomes, k)
            &&& end is Rollback <==> one_failed(outcomes, k)
        }),
{
    lemma_run_all_or_nothing(Stage::Parent, n_ing, n_res, outcomes);
}

/// The insert outcome `ev` is one that `stage` can see: the recipe row gives
/// an id, a child row does not.
pub open spec fn event_fits(stage: Stage, ev: TxEvent) -> bool {
    match ev {
        TxEvent::RecipeInserted(_) => stage is Parent,
        TxEvent::RowInserted => stage is Ingredient || stage is Restriction,
        TxEvent::Failed => true,
    }
}

/// The transaction that writes one record: the recipe and where it stands.
#[derive(Debug)]
pub struct RecordWrite {
    pub recipe: Recipe,
    pub stage: Stage,
}

impl RecordWrite {
    /// The stage refers to a child row that the recipe has.
    pub open spec fn wf(&self) -> bool {
        stage_fits(
            self.stage,
            self.recipe.ingredients@.len(),
            self.recipe.dietary_restrictions@.len(),
        )
    }

    /// A transaction for `recipe`, which first inserts the recipe row.
    pub fn new(recipe: Recipe) -> (r: RecordWrite)
        ensures
            r.recipe == recipe,
            r.stage == Stage::Parent,
            r.wf(),
    {
        RecordWrite { recipe, stage: Stage::Parent }
    }

    /// Whether the transaction is decided: it is to be committed or rolled back.
    pub fn is_decided(&self) -> (r: bool)
        ensures
            r == !awaits_insert(self.stage),
    {
        match self.stage {
            Stage::Commit | Stage::Rollback => true,
            _ => false,
        }
    }

    /// What the store is to do at this stage. The child rows carry the id
    /// that the store gave the recipe row.
    pub fn action(&self) -> (a: TxAction)
        requires
            self.wf(),
        ensures
            self.stage is Parent ==> a == TxAction::InsertRecipe,
            self.stage matches Stage::Ingredient(i) ==> a matches TxAction::InsertIngredient(
                id,
                t,
            ) && id == self.recipe.id && t@ == self.recipe.ingredients@[i as int]@,
            self.stage matches Stage::Restriction(j) ==> a matches TxAction::InsertRestriction(
                id,
                t,
            ) && id == self.recipe.id && t@ == self.recipe.dietary_restrictions@[j as int]@,
            self.stage is Commit ==> a == TxAction::Commit,
            self.stage is Rollback ==> a == TxAction::Rollback,
    {
        match self.stage {
            Stage::Parent => TxAction::InsertRecipe,
            Stage::Ingredient(i) => TxAction::InsertIngredient(
                self.recipe.id,
                self.recipe.ingredients[i].clone(),
            ),
            Stage::Restriction(j) => TxAction::InsertRestriction(
                self.recipe.id,
                self.recipe.dietary_restrictions[j].clone(),
            ),
            Stage::Commit => TxAction::Commit,
            Stage::Rollback => TxAction::Rollback,
        }
    }

    /// Takes the outcome of the insert just made: a success moves on to the
    /// next row, or to the commit after the last one; a failure leads to the
    /// rollback. The recipe takes the id that the store gave its row.
    pub fn on_event(&mut self, ev: TxEvent)
        requires
            old(self).wf(),
            awaits_insert(old(self).stage),
            event_fits(old(self).stage, ev),
        ensures
            final(self).wf(),
            final(self).stage == advance(
                old(self).stage,
                old(self).recipe.ingredients@.len(),
                old(self).recipe.dietary_restrictions@.len(),
                !(ev is Failed),
            ),
            final(self).recipe.id == match ev {
                TxEvent::RecipeInserted(id) => id,
                _ => old(self).recipe.id,
            },
            final(self).recipe.name == old(self).recipe.name,
            final(self).recipe.cuisine == old(self).recipe.cuisine,
            final(self).recipe.ingredients == old(self).recipe.ingredients,
            final(self).recipe.cooking_time_minutes == old(self).recipe.cooking_time_minutes,
            final(self).recipe.prep_time_minutes == old(self).recipe.prep_time_minutes,
            final(self).recipe.servings == old(self).recipe.servings,
            final(self).recipe.calories_per_serving == old(self).recipe.calories_per_serving,
            final(self).recipe.dietary_restrictions == old(self).recipe.dietary_restrictions,
    {
        let n_ing = self.recipe.ingredients.len();
        let n_res = self.recipe.dietary_restrictions.len();
        match ev {
            TxEvent::Failed => {
                self.stage = Stage::Rollback;
            },
            TxEvent::RecipeInserted(id) => {
                self.recipe.id = id;
                self.stage = if n_ing > 0 {
                    Stage::Ingredient(0)
                } else if n_res > 0 {
                    Stage::Restriction(0)
                } else {
                    Stage::Commit
                };
            },
            TxEvent::RowInserted => {
                self.stage = match self.stage {
                    Stage::Ingredient(i) => if i + 1 < n_ing {
                        Stage::Ingredient(i + 1)
                    } else if n_res > 0 {
                        Stage::Restriction(0)
                    } else {
                        Stage::Commit
                    },
                    Stage::Restriction(j) => if j + 1 < n_res {
                        Stage::Restriction(j + 1)
                    } else {
                        Stage::Commit
                    },
                    Stage::Parent => Stage::Parent,
                    Stage::Commit => Stage::Commit,
                    Stage::Rollback => Stage::Rollback,
                };
            },
        }
    }
}

/// A source record that could not be read.
#[derive(Debug)]
pub struct RejectedRecord {
    /// Its position among the records, 1 for the first after the header.
    pub row: usize,
    /// Why it could not be read.
    pub reason: String,
}

/// The records that could be read, in order.
pub open spec fn readable(rows: Seq<Result<CsvRecipe, String>>) -> Seq<CsvRecipe>
    decreases rows.len(),
{
    if rows.len() == 0 {
        Seq::<CsvRecipe>::empty()
    } else {
        match rows.last() {
            Ok(v) => readable(rows.drop_last()).push(v),
            Err(_) => readable(rows.drop_last()),
        }
    }
}

/// The positions (1 for the first) and reasons of the records that could not
/// be read, in order.
pub open spec fn unreadable(rows: Seq<Result<CsvRecipe, String>>) -> Seq<(int, Seq<char>)>
    decreases rows.len(),
{
    if rows.len() == 0 {
        Seq::<(int, Seq<char>)>::empty()
    } else {
        match rows.last() {
            Ok(_) => unreadable(rows.drop_last()),
            Err(e) => unreadable(rows.drop_last()).push((rows.len() as int, e@)),
        }
    }
}

/// Sorts the records of a source, each read or not, into the recipes that
/// the readable ones convert to and the rejected ones. A record that cannot
/// be read is reported and skipped; it never stops the others.
pub fn collect_records(rows: &Vec<Result<CsvRecipe, String>>) -> (r: (
    Vec<Recipe>,
    Vec<RejectedRecord>,
))
    ensures
        r.0@.len() == readable(rows@).len(),
        forall|k: int| 0 <= k < r.0@.len() ==> (#[trigger] r.0@[k]).converts(readable(rows@)[k]),
        r.1@.len() == unreadable(rows@).len(),
        forall|k: int|
            0 <= k < r.1@.len() ==> (#[trigger] r.1@[k]).row == unreadable(rows@)[k].0
                && r.1@[k].reason@ == unreadable(rows@)[k].1,
{
    let mut recipes: Vec<Recipe> = Vec::new();
    let mut rejected: Vec<RejectedRecord> = Vec::new();
    let mut i: usize = 0;
    while i < rows.len()
        invariant
            i <= rows@.len(),
            recipes@.len() == readable(rows@.take(i as int)).len(),
            forall|k: int|
                0 <= k < recipes@.len() ==> (#[trigger] recipes@[k]).converts(
                    readable(rows@.take(i as int))[k],
                ),
            rejected@.len() == unreadable(rows@.take(i as int)).len(),
            forall|k: int|
                0 <= k < rejected@.len() ==> (#[trigger] rejected@[k]).row == unreadable(
                    rows@.take(i as int),
                )[k].0 && rejected@[k].reason@ == unreadable(rows@.take(i as int))[k].1,
        decreases rows@.len() - i,
    {
        let ghost prefix = rows@.take(i as int);
        let ghost next = rows@.take(i + 1);
        assert(next.drop_last() =~= prefix);
        match &rows[i] {
            Ok(v) => {
                let recipe = Recipe::from_csv(v);
                recipes.push(recipe);
            },
            Err(e) => {
                rejected.push(RejectedRecord { row: i + 1, reason: e.clone() });
            },
        }
        i = i + 1;
    }
    assert(rows@.take(i as int) =~= rows@);
    (recipes, rejected)
}

} // verus!
