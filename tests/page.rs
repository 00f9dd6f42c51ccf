use recipe_server::page::parse_id;
use recipe_server::templates::STYLESHEET;
use recipe_server::{extract_db_dir, get_db_uri, plan_page, DatabaseError, GetRecipeParams, IndexTemplate, PageRequest, Recipe};

fn params(id: Option<&str>, cuisine: Option<&str>) -> GetRecipeParams {
    GetRecipeParams { id: id.map(|s| s.to_string()), cuisine: cuisine.map(|s| s.to_string()) }
}

#[test]
fn ids_are_read_as_signed_decimal() {
    assert_eq!(parse_id("42"), Some(42));
    assert_eq!(parse_id("+7"), Some(7));
    assert_eq!(parse_id("-15"), Some(-15));
    assert_eq!(parse_id("007"), Some(7));
    assert_eq!(parse_id("9223372036854775807"), Some(i64::MAX));
    assert_eq!(parse_id("-9223372036854775808"), Some(i64::MIN));
}

#[test]
fn malformed_ids_are_rejected() {
    for s in ["", "-", "+", "1a", " 1", "1 ", "--1", "9223372036854775808", "-9223372036854775809", "99999999999999999999999", "\u{661}"] {
        assert_eq!(parse_id(s), None, "{s:?}");
        assert_eq!(s.parse::<i64>().ok(), None, "{s:?}");
    }
}

#[test]
fn page_for_an_id() {
    assert_eq!(plan_page(&params(Some("12"), Some("Thai"))), PageRequest::ById(12));
    assert_eq!(plan_page(&params(Some("twelve"), None)), PageRequest::Placeholder);
}

#[test]
fn page_for_a_cuisine() {
    assert_eq!(plan_page(&params(None, Some("Thai"))), PageRequest::ByCuisine("Thai".to_string()));
    assert_eq!(plan_page(&params(None, Some("  \t"))), PageRequest::Home);
    assert_eq!(plan_page(&params(None, Some(""))), PageRequest::Home);
}

#[test]
fn page_without_parameters_is_random() {
    assert_eq!(plan_page(&params(None, None)), PageRequest::Random);
}

#[test]
fn database_directory_of_uri() {
    assert_eq!(extract_db_dir("sqlite://db/recipe.db"), Ok("db"));
    assert_eq!(extract_db_dir("sqlite://recipe.db"), Ok(""));
    assert_eq!(extract_db_dir("sqlite://a/b/c.db"), Ok("a/b"));
    assert_eq!(extract_db_dir("sqlite:///tmp/x.db"), Ok("/tmp"));
}

#[test]
fn database_uri_must_name_a_sqlite_file() {
    assert_eq!(
        extract_db_dir("postgres://db/recipe.db"),
        Err(DatabaseError::InvalidDbUri("postgres://db/recipe.db".to_string()))
    );
    assert_eq!(
        extract_db_dir("sqlite://db/recipe.sqlite"),
        Err(DatabaseError::InvalidDbUri("sqlite://db/recipe.sqlite".to_string()))
    );
}

#[test]
fn database_uri_precedence() {
    assert_eq!(get_db_uri(Some("sqlite://a.db"), Some("sqlite://b.db")), "sqlite://a.db");
    assert_eq!(get_db_uri(None, Some("sqlite://b.db")), "sqlite://b.db");
    assert_eq!(get_db_uri(None, None), "sqlite://db/recipe.db");
}

#[test]
fn page_template_links_the_stylesheet() {
    let r = Recipe::default();
    let t = IndexTemplate::new(&r);
    assert_eq!(t.stylesheet, "/recipe.css");
    assert_eq!(STYLESHEET, "/recipe.css");
    assert_eq!(t.recipe.name, "Not Found");
}

#[test]
fn error_messages() {
    assert_eq!(DatabaseError::InvalidDbUri("x".to_string()).message(), "invalid database uri: x");
    assert_eq!(DatabaseError::NoMatchingRecipe.message(), "no matching recipe");
}
