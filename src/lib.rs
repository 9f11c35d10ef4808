//! Production-chain planning: recipes, resource balance and the linear
//! program that picks the cheapest mix of recipe usage rates.
//!
//! All real quantities (amounts, times, rates, weights, usages) are
//! fixed-point integers: one unit is `item::UNIT`. A rate is an amount per
//! cycle over the cycle time, so it carries no scale of its own.
//!
//! `calc::Problem::formulate` turns a problem into a `lp::LinearProgram`
//! (binding, objective, resource index, balance constraints); a solver fills
//! in one value per variable, and `translator::from_clarabel_solution` keeps
//! the recipes in use. `catalogue` builds the recipe list from game data.

pub mod item;
pub mod building;
pub mod recipe;
pub mod lp;
pub mod error;
pub mod calc;
pub mod index;
pub mod constraint;
pub mod objective;
pub mod translator;
pub mod proliferator;
pub mod catalogue;
pub mod unit_convert;
