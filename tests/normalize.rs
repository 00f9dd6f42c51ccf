use recipe_server::normalize_list;

fn strings(v: &[&str]) -> Vec<String> {
    v.iter().map(|s| s.to_string()).collect()
}

#[test]
fn clean_list_gives_its_items_in_order() {
    assert_eq!(normalize_list("['egg', 'flour', 'sugar']"), strings(&["egg", "flour", "sugar"]));
}

#[test]
fn empty_list_gives_no_item() {
    assert_eq!(normalize_list("[]"), Vec::<String>::new());
    assert!(normalize_list("[]").is_empty());
}

#[test]
fn list_of_one_empty_quote_gives_no_item() {
    assert_eq!(normalize_list("['']"), Vec::<String>::new());
    assert_eq!(normalize_list(""), Vec::<String>::new());
}

#[test]
fn normalizing_twice_changes_nothing() {
    let once = normalize_list("[' garlic ', 'olive oil',, 'basil ']");
    assert_eq!(once, strings(&["garlic", "olive oil", "", "basil"]));
    let twice = normalize_list(&once.join(","));
    assert_eq!(twice, once);
    let twice_spaced = normalize_list(&once.join(", "));
    assert_eq!(twice_spaced, once);
}

#[test]
fn markers_are_removed_inside_items_too() {
    assert_eq!(normalize_list("[baker's yeast]"), strings(&["bakers yeast"]));
}

#[test]
fn unicode_white_space_is_trimmed() {
    assert_eq!(normalize_list("['\u{a0}tofu\u{3000}', '\tsoy sauce\n']"), strings(&["tofu", "soy sauce"]));
}

#[test]
fn commas_separate_items_without_brackets() {
    assert_eq!(normalize_list("vegan,gluten-free"), strings(&["vegan", "gluten-free"]));
}

#[test]
fn normalizing_the_list_literal_of_the_items_changes_nothing() {
    let once = normalize_list("[' garlic ', 'olive oil',, 'basil ']");
    let literal = format!("[{}]", once.iter().map(|x| format!("'{}'", x)).collect::<Vec<_>>().join(", "));
    assert_eq!(literal, "['garlic', 'olive oil', '', 'basil']");
    assert_eq!(normalize_list(&literal), once);
    let clean = strings(&["egg", "flour", "sugar"]);
    assert_eq!(normalize_list("['egg', 'flour', 'sugar']"), clean);
}

#[test]
fn every_comma_separates_an_item() {
    assert_eq!(normalize_list("a,,b"), strings(&["a", "", "b"]));
    assert_eq!(normalize_list("[' ', ' ']"), strings(&["", ""]));
    assert_eq!(normalize_list("[egg,]"), strings(&["egg", ""]));
}

#[test]
fn white_space_alone_gives_no_item() {
    assert_eq!(normalize_list("[ ' ' ]"), Vec::<String>::new());
    assert_eq!(normalize_list("   "), Vec::<String>::new());
}
