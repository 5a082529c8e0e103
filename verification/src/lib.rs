//! A pantry and recipe manager: a relational store of categories, ingredients,
//! price observations, dishes and recipe lines, the rule that keeps a local
//! replica in step with one remote copy, and the matcher that tells which
//! dishes can be made from the ingredients at hand.

pub mod database;
pub mod text;
