//! A recipe catalog: ingestion of recipe records from delimited text into a
//! relational store, and the assembly and selection of recipes read back.
pub mod database;
pub mod error;
pub mod ingest;
pub mod normalize;
pub mod page;
pub mod recipe;
pub mod selection;
pub mod templates;

pub use database::{extract_db_dir, get_db_uri};
pub use error::DatabaseError;
pub use ingest::{collect_records, RecordWrite, RejectedRecord, Stage, TxAction, TxEvent};
pub use normalize::normalize_list;
pub use page::{plan_page, GetRecipeParams, PageRequest};
pub use recipe::{CsvRecipe, Recipe, RecipeRow};
pub use selection::choose_random_id;
pub use templates::IndexTemplate;
