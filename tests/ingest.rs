use recipe_server::{collect_records, CsvRecipe, Recipe, RecordWrite, Stage, TxAction, TxEvent};

fn record(name: &str, ingredients: &str, restrictions: &str) -> CsvRecipe {
    CsvRecipe {
        recipe_name: name.to_string(),
        cuisine: "Italian".to_string(),
        ingredients: ingredients.to_string(),
        cooking_time_minutes: 20,
        prep_time_minutes: 10,
        servings: 4,
        calories_per_serving: 350,
        dietary_restrictions: restrictions.to_string(),
    }
}

/// Runs a record's transaction, answering each insert from `fails_at`
/// (the position of the insert that fails, if any), and returns the
/// actions taken in order.
fn drive(recipe: Recipe, new_id: i64, fails_at: Option<usize>) -> (Vec<TxAction>, RecordWrite) {
    let mut tx = RecordWrite::new(recipe);
    let mut actions = Vec::new();
    let mut n = 0;
    while !tx.is_decided() {
        let action = tx.action();
        let event = if Some(n) == fails_at {
            TxEvent::Failed
        } else if action == TxAction::InsertRecipe {
            TxEvent::RecipeInserted(new_id)
        } else {
            TxEvent::RowInserted
        };
        actions.push(action);
        tx.on_event(event);
        n += 1;
    }
    actions.push(tx.action());
    (actions, tx)
}

#[test]
fn conversion_normalizes_the_list_fields() {
    let r = Recipe::from_csv(&record("Pasta", "['pasta', 'tomato']", "['vegetarian']"));
    assert_eq!(r.id, 0);
    assert_eq!(r.name, "Pasta");
    assert_eq!(r.cuisine, "Italian");
    assert_eq!(r.ingredients, vec!["pasta".to_string(), "tomato".to_string()]);
    assert_eq!(r.dietary_restrictions, vec!["vegetarian".to_string()]);
    assert_eq!((r.cooking_time_minutes, r.prep_time_minutes, r.servings, r.calories_per_serving), (20, 10, 4, 350));
}

#[test]
fn whole_record_is_inserted_then_committed() {
    let r = Recipe::from_csv(&record("Pasta", "['pasta', 'tomato']", "['vegetarian']"));
    let (actions, tx) = drive(r, 7, None);
    assert_eq!(
        actions,
        vec![
            TxAction::InsertRecipe,
            TxAction::InsertIngredient(7, "pasta".to_string()),
            TxAction::InsertIngredient(7, "tomato".to_string()),
            TxAction::InsertRestriction(7, "vegetarian".to_string()),
            TxAction::Commit,
        ]
    );
    assert_eq!(tx.stage, Stage::Commit);
    assert_eq!(tx.recipe.id, 7);
}

#[test]
fn failed_child_insert_rolls_back() {
    let r = Recipe::from_csv(&record("Pasta", "['pasta', 'tomato']", "['vegetarian']"));
    let (actions, tx) = drive(r, 7, Some(2));
    assert_eq!(actions.len(), 4);
    assert_eq!(actions[3], TxAction::Rollback);
    assert!(!actions.contains(&TxAction::Commit));
    assert_eq!(tx.stage, Stage::Rollback);
}

#[test]
fn failed_restriction_insert_rolls_back() {
    let r = Recipe::from_csv(&record("Pasta", "['pasta']", "['vegan', 'halal']"));
    let (actions, _) = drive(r, 3, Some(3));
    assert_eq!(actions.last(), Some(&TxAction::Rollback));
    assert!(!actions.contains(&TxAction::Commit));
}

#[test]
fn failed_recipe_insert_rolls_back_at_once() {
    let r = Recipe::from_csv(&record("Pasta", "['pasta']", "[]"));
    let (actions, _) = drive(r, 3, Some(0));
    assert_eq!(actions, vec![TxAction::InsertRecipe, TxAction::Rollback]);
}

#[test]
fn record_without_children_commits_after_its_row() {
    let r = Recipe::from_csv(&record("Water", "[]", "[]"));
    let (actions, _) = drive(r, 1, None);
    assert_eq!(actions, vec![TxAction::InsertRecipe, TxAction::Commit]);
}

#[test]
fn unreadable_record_is_skipped_and_reported() {
    let rows = vec![
        Ok(record("Pasta", "['pasta']", "[]")),
        Err("CSV deserialize error: record 2: field 4: invalid digit found in string".to_string()),
        Ok(record("Pizza", "['dough', 'cheese']", "['vegetarian']")),
    ];
    let (recipes, rejected) = collect_records(&rows);
    assert_eq!(recipes.len(), 2);
    assert_eq!(recipes[0].name, "Pasta");
    assert_eq!(recipes[1].name, "Pizza");
    assert_eq!(rejected.len(), 1);
    assert_eq!(rejected[0].row, 2);
    assert!(rejected[0].reason.contains("invalid digit"));
}

#[test]
fn three_records_with_a_failing_second_store_two() {
    let rows = vec![
        Ok(record("Pasta", "['pasta']", "[]")),
        Ok(record("Pasta", "['pasta']", "[]")),
        Ok(record("Pizza", "['dough']", "['vegetarian']")),
    ];
    let (recipes, rejected) = collect_records(&rows);
    assert!(rejected.is_empty());
    let mut committed = Vec::new();
    let mut failed = Vec::new();
    for (k, r) in recipes.into_iter().enumerate() {
        let fails_at = if k == 1 { Some(0) } else { None };
        let (actions, tx) = drive(r, k as i64 + 1, fails_at);
        match actions.last() {
            Some(TxAction::Commit) => committed.push(tx.recipe.id),
            _ => failed.push(k + 1),
        }
    }
    assert_eq!(committed, vec![1, 3]);
    assert_eq!(failed, vec![2]);
}

#[test]
fn empty_source_gives_nothing() {
    let (recipes, rejected) = collect_records(&Vec::new());
    assert!(recipes.is_empty());
    assert!(rejected.is_empty());
}
