//! Errors of the store and of the recipe source.
use vstd::prelude::*;

verus! {

/// What went wrong while reading recipes from the store or from their source.
#[derive(Debug, PartialEq, Eq)]
pub enum DatabaseError {
    /// The store could not answer a fetch; holds its message.
    FailedDbFetch(String),
    /// No stored recipe matches the request.
    NoMatchingRecipe,
    /// The recipe source could not be opened; holds the reason.
    RecipeNotFound(String),
    /// The recipe source is not well-formed delimited text; holds the reason.
    RecipeMisformat(String),
    /// The database URI names no SQLite database file; holds the URI.
    InvalidDbUri(String),
}

impl DatabaseError {
    /// A line of text that describes the error.
    pub fn message(&self) -> (r: String)
        ensures
            self matches DatabaseError::FailedDbFetch(m) ==> r@ == "recipe fetch failed: "@ + m@,
            self is NoMatchingRecipe ==> r@ == "no matching recipe"@,
            self matches DatabaseError::RecipeNotFound(m) ==> r@ == "could not find recipe file: "@
                + m@,
            self matches DatabaseError::RecipeMisformat(m) ==> r@ == "could not read csv file: "@
                + m@,
            self matches DatabaseError::InvalidDbUri(m) ==> r@ == "invalid database uri: "@ + m@,
    {
        match self {
            DatabaseError::FailedDbFetch(m) => {
                let mut s = "recipe fetch failed: ".to_string();
                s.append(m.as_str());
                s
            },
            DatabaseError::NoMatchingRecipe => "no matching recipe".to_string(),
            DatabaseError::RecipeNotFound(m) => {
                let mut s = "could not find recipe file: ".to_string();
                s.append(m.as_str());
                s
            },
            DatabaseError::RecipeMisformat(m) => {
                let mut s = "could not read csv file: ".to_string();
                s.append(m.as_str());
                s
            },
            DatabaseError::InvalidDbUri(m) => {
                let mut s = "invalid database uri: ".to_string();
                s.append(m.as_str());
                s
            },
        }
    }
}

} // verus!
