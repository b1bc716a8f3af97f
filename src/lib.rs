//! A cooking simulator: matches a list of ingredients against an ordered
//! catalog of recipe shapes and computes the cooked dish's stats.
pub mod cook;
pub mod dish;
pub mod invariance;
pub mod modifier;
pub mod recipe;
pub mod strs;
pub mod wmc;

pub use cook::{Cook, CookError, Effect, Item, STRICT_SPLIT};
pub use dish::{unique_mod, Recipe};
pub use modifier::{Modifier, Potency};
pub use recipe::{AVec, RecipeBase};
pub use strs::{inter, unique, unique_len};
pub use wmc::{is_bit_set, WMC};
