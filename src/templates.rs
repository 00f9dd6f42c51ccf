//! What the recipe page is rendered from.
use vstd::prelude::*;

use crate::recipe::Recipe;

verus! {

/// The path of the page's stylesheet.
pub const STYLESHEET: &'static str = "/recipe.css";

/// The values that the recipe page is rendered from: the recipe shown and
/// the stylesheet the page links to.
pub struct IndexTemplate<'a> {
    pub recipe: &'a Recipe,
    pub stylesheet: &'static str,
}

impl<'a> IndexTemplate<'a> {
    /// The page for `recipe`, linking to `STYLESHEET`.
    pub fn new(recipe: &'a Recipe) -> (r: IndexTemplate<'a>)
        ensures
            r.recipe == recipe,
            r.stylesheet@ == STYLESHEET@,
    {
        IndexTemplate { recipe, stylesheet: STYLESHEET }
    }
}

} // verus!
