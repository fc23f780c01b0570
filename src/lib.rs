//! Meal-recommendation core: online preference learning, recipe scoring,
//! weekly plan selection and shopping-list aggregation, in fixed-point
//! integer arithmetic.
use vstd::prelude::*;

pub mod fixed_point;
pub mod signal;
pub mod weights;
pub mod recipe;
pub mod preference;
pub mod scoring;
pub mod plan;
pub mod text;
pub mod shopping;
pub mod account;
pub mod token;
pub mod config;
pub mod models;
pub mod inventory;

verus! {

} // verus!
