//! The recipe aggregate, the record it is ingested from, and its assembly
//! from the rows that the store gives back.
use vstd::prelude::*;

use crate::error::DatabaseError;
use crate::normalize::{normalize_list, normalized, views};

verus! {

/// A recipe with its ingredients and dietary restrictions.
#[derive(Debug)]
pub struct Recipe {
    pub id: i64,
    pub name: String,
    pub cuisine: String,
    pub ingredients: Vec<String>,
    pub cooking_time_minutes: i64,
    pub prep_time_minutes: i64,
    pub servings: i64,
    pub calories_per_serving: i64,
    pub dietary_restrictions: Vec<String>,
}

/// One record of the recipe source, with its two list-valued fields still
/// as written, e.g. `['egg', 'flour']`.
#[derive(Debug)]
pub struct CsvRecipe {
    pub recipe_name: String,
    pub cuisine: String,
    pub ingredients: String,
    pub cooking_time_minutes: i64,
    pub prep_time_minutes: i64,
    pub servings: i64,
    pub calories_per_serving: i64,
    pub dietary_restrictions: String,
}

/// The scalar columns of one row of the `recipes` table.
#[derive(Debug)]
pub struct RecipeRow {
    pub id: i64,
    pub name: String,
    pub cuisine: String,
    pub cooking_time_minutes: i64,
    pub prep_time_minutes: i64,
    pub servings: i64,
    pub calories_per_serving: i64,
}

/// The items that a child-table fetch gave, or none where it failed.
pub open spec fn children_or_empty(fetched: Result<Vec<String>, String>) -> Seq<Seq<char>> {
    match fetched {
        Ok(v) => views(v@),
        Err(_) => Seq::<Seq<char>>::empty(),
    }
}

impl Recipe {
    /// `self` carries the scalar columns of `row`.
    pub open spec fn has_row(&self, row: RecipeRow) -> bool {
        &&& self.id == row.id
        &&& self.name@ == row.name@
        &&& self.cuisine@ == row.cuisine@
        &&& self.cooking_time_minutes == row.cooking_time_minutes
        &&& self.prep_time_minutes == row.prep_time_minutes
        &&& self.servings == row.servings
        &&& self.calories_per_serving == row.calories_per_serving
    }

    /// `self` is the conversion of the source record `v`.
    pub open spec fn converts(&self, v: CsvRecipe) -> bool {
        &&& self.id == 0
        &&& self.name@ == v.recipe_name@
        &&& self.cuisine@ == v.cuisine@
        &&& views(self.ingredients@) == normalized(v.ingredients@)
        &&& self.cooking_time_minutes == v.cooking_time_minutes
        &&& self.prep_time_minutes == v.prep_time_minutes
        &&& self.servings == v.servings
        &&& self.calories_per_serving == v.calories_per_serving
        &&& views(self.dietary_restrictions@) == normalized(v.dietary_restrictions@)
    }

    /// Converts a source record: the scalar fields are kept, the list fields
    /// are normalized, and the id is 0 until the store assigns one.
    pub fn from_csv(v: &CsvRecipe) -> (r: Recipe)
        ensures
            r.converts(*v),
    {
        let ingredients = normalize_list(v.ingredients.as_str());
        let dietary_restrictions = normalize_list(v.dietary_restrictions.as_str());
        Recipe {
            id: 0,
            name: v.recipe_name.clone(),
            cuisine: v.cuisine.clone(),
            ingredients,
            cooking_time_minutes: v.cooking_time_minutes,
            prep_time_minutes: v.prep_time_minutes,
            servings: v.servings,
            calories_per_serving: v.calories_per_serving,
            dietary_restrictions,
        }
    }

    /// Assembles a recipe from its row and the results of the two child-table
    /// fetches. A failed child fetch leaves that collection empty: the row
    /// alone is enough to give a recipe.
    pub fn assemble(
        row: RecipeRow,
        ingredients: Result<Vec<String>, String>,
        dietary_restrictions: Result<Vec<String>, String>,
    ) -> (r: Recipe)
        ensures
            r.has_row(row),
            views(r.ingredients@) == children_or_empty(ingredients),
            views(r.dietary_restrictions@) == children_or_empty(dietary_restrictions),
    {
        let ghost old_ingredients = ingredients;
        let ghost old_restrictions = dietary_restrictions;
        let ingredients = match ingredients {
            Ok(v) => v,
            Err(_) => Vec::new(),
        };
        let dietary_restrictions = match dietary_restrictions {
            Ok(v) => v,
            Err(_) => Vec::new(),
        };
        assert(views(dietary_restrictions@) =~= children_or_empty(old_restrictions));
        assert(views(ingredients@) =~= children_or_empty(old_ingredients));
        Recipe {
            id: row.id,
            name: row.name,
            cuisine: row.cuisine,
            ingredients,
            cooking_time_minutes: row.cooking_time_minutes,
            prep_time_minutes: row.prep_time_minutes,
            servings: row.servings,
            calories_per_serving: row.calories_per_serving,
            dietary_restrictions,
        }
    }

    /// The row that a fetch of the `recipes` table by id gave: `Ok(None)` is
    /// no such row, which is `NoMatchingRecipe`; `Err` is a failure of the
    /// store, which is `FailedDbFetch` with its message.
    pub fn found_row(fetched: Result<Option<RecipeRow>, String>) -> (r: Result<
        RecipeRow,
        DatabaseError,
    >)
        ensures
            fetched matches Ok(Some(x)) ==> r == Ok::<RecipeRow, DatabaseError>(x),
            fetched matches Ok(None) ==> r == Err::<RecipeRow, DatabaseError>(
                DatabaseError::NoMatchingRecipe,
            ),
            fetched matches Err(m) ==> (r matches Err(DatabaseError::FailedDbFetch(e)) && e@
                == m@),
    {
        match fetched {
            Ok(Some(x)) => Ok(x),
            Ok(None) => Err(DatabaseError::NoMatchingRecipe),
            Err(m) => Err(DatabaseError::FailedDbFetch(m)),
        }
    }
}

impl Default for Recipe {
    /// The placeholder shown where no recipe could be found.
    fn default() -> (r: Recipe)
        ensures
            r.id == 0,
            r.name@ == "Not Found"@,
            r.cuisine@ == "None"@,
            views(r.ingredients@) == seq!["None"@],
            r.cooking_time_minutes == 0,
            r.prep_time_minutes == 0,
            r.servings == 0,
            r.calories_per_serving == 0,
            views(r.dietary_restrictions@) == seq!["None"@],
    {
        let r = Recipe {
            id: 0,
            name: "Not Found".to_string(),
            cuisine: "None".to_string(),
            ingredients: vec!["None".to_string()],
            cooking_time_minutes: 0,
            prep_time_minutes: 0,
            servings: 0,
            calories_per_serving: 0,
            dietary_restrictions: vec!["None".to_string()],
        };
        assert(views(r.ingredients@) =~= seq!["None"@]);
        assert(views(r.dietary_restrictions@) =~= seq!["None"@]);
        r
    }
}

} // verus!
