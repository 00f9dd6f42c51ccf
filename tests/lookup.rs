use recipe_server::selection::{candidate_ids, cuisine_matches, pick_candidate};
use recipe_server::{choose_random_id, DatabaseError, Recipe, RecipeRow};

fn row(id: i64) -> RecipeRow {
    RecipeRow {
        id,
        name: "Risotto".to_string(),
        cuisine: "Italian".to_string(),
        cooking_time_minutes: 30,
        prep_time_minutes: 15,
        servings: 2,
        calories_per_serving: 600,
    }
}

fn entries() -> Vec<(i64, String)> {
    vec![
        (1, "Italian".to_string()),
        (2, "Thai".to_string()),
        (3, "italian".to_string()),
        (4, "Mexican".to_string()),
    ]
}

#[test]
fn children_are_attached_in_store_order() {
    let r = Recipe::assemble(
        row(5),
        Ok(vec!["rice".to_string(), "broth".to_string()]),
        Ok(vec!["gluten-free".to_string()]),
    );
    assert_eq!(r.id, 5);
    assert_eq!(r.name, "Risotto");
    assert_eq!(r.cuisine, "Italian");
    assert_eq!((r.cooking_time_minutes, r.prep_time_minutes, r.servings, r.calories_per_serving), (30, 15, 2, 600));
    assert_eq!(r.ingredients, vec!["rice".to_string(), "broth".to_string()]);
    assert_eq!(r.dietary_restrictions, vec!["gluten-free".to_string()]);
}

#[test]
fn failed_child_fetch_gives_empty_collection() {
    let r = Recipe::assemble(row(5), Err("disk I/O error".to_string()), Ok(vec!["vegan".to_string()]));
    assert!(r.ingredients.is_empty());
    assert_eq!(r.dietary_restrictions, vec!["vegan".to_string()]);
    let r = Recipe::assemble(row(5), Ok(vec!["rice".to_string()]), Err("locked".to_string()));
    assert_eq!(r.ingredients, vec!["rice".to_string()]);
    assert!(r.dietary_restrictions.is_empty());
}

#[test]
fn recipe_without_child_rows_is_still_returned() {
    let found = Recipe::found_row(Ok(Some(row(9)))).unwrap();
    assert_eq!(found.id, 9);
    let r = Recipe::assemble(found, Ok(Vec::new()), Ok(Vec::new()));
    assert_eq!(r.id, 9);
    assert!(r.ingredients.is_empty());
    assert!(r.dietary_restrictions.is_empty());
}

#[test]
fn missing_row_is_not_found() {
    let r = Recipe::found_row(Ok(None));
    assert_eq!(r.unwrap_err(), DatabaseError::NoMatchingRecipe);
}

#[test]
fn store_failure_is_a_fetch_error() {
    let r = Recipe::found_row(Err("database is locked".to_string()));
    assert_eq!(r.unwrap_err(), DatabaseError::FailedDbFetch("database is locked".to_string()));
}

#[test]
fn random_pick_on_empty_store_is_not_found() {
    assert_eq!(choose_random_id(&Vec::new(), None), Err(DatabaseError::NoMatchingRecipe));
    assert_eq!(choose_random_id(&Vec::new(), Some("Italian")), Err(DatabaseError::NoMatchingRecipe));
}

#[test]
fn cuisine_is_matched_regardless_of_ascii_case() {
    for query in ["italian", "ITALIAN", "Italian", "iTaLiAn"] {
        let id = choose_random_id(&entries(), Some(query)).unwrap();
        assert!(id == 1 || id == 3, "{query} gave {id}");
        assert_eq!(candidate_ids(&entries(), Some(query)), vec![1, 3]);
    }
}

#[test]
fn unknown_cuisine_is_not_found() {
    assert_eq!(choose_random_id(&entries(), Some("French")), Err(DatabaseError::NoMatchingRecipe));
    assert_eq!(choose_random_id(&entries(), Some("Ital")), Err(DatabaseError::NoMatchingRecipe));
}

#[test]
fn random_pick_without_filter_is_some_stored_id() {
    for _ in 0..50 {
        let id = choose_random_id(&entries(), None).unwrap();
        assert!((1..=4).contains(&id));
    }
    assert_eq!(candidate_ids(&entries(), None), vec![1, 2, 3, 4]);
}

#[test]
fn random_pick_reaches_every_candidate() {
    let mut seen = [false; 2];
    for _ in 0..200 {
        match choose_random_id(&entries(), Some("ITALIAN")).unwrap() {
            1 => seen[0] = true,
            3 => seen[1] = true,
            other => panic!("not a candidate: {other}"),
        }
    }
    assert_eq!(seen, [true, true]);
}

#[test]
fn pick_takes_the_draw_modulo_the_candidates() {
    assert_eq!(pick_candidate(&vec![5, 7, 9], 4), Ok(7));
    assert_eq!(pick_candidate(&vec![5, 7, 9], 0), Ok(5));
    assert_eq!(pick_candidate(&vec![], 3), Err(DatabaseError::NoMatchingRecipe));
}

#[test]
fn only_ascii_letters_are_folded() {
    assert!(cuisine_matches("Caf\u{e9}", "CAF\u{e9}"));
    assert!(!cuisine_matches("\u{c9}", "\u{e9}"));
    assert!(!cuisine_matches("Thai", "Thai "));
    assert!(cuisine_matches("", ""));
}

#[test]
fn placeholder_recipe() {
    let r = Recipe::default();
    assert_eq!(r.id, 0);
    assert_eq!(r.name, "Not Found");
    assert_eq!(r.cuisine, "None");
    assert_eq!(r.ingredients, vec!["None".to_string()]);
    assert_eq!(r.dietary_restrictions, vec!["None".to_string()]);
    assert_eq!((r.cooking_time_minutes, r.prep_time_minutes, r.servings, r.calories_per_serving), (0, 0, 0, 0));
}
