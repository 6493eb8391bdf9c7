//! Random picks of a boss to fight or a skill to train, from fixed tables.
//!
//! Bosses are drawn in two stages: a category uniformly among those the user
//! did not exclude, then a boss uniformly within it, so every remaining
//! category is equally likely whatever its size. Skills are drawn uniformly
//! from one flat list.

pub mod answers;
pub mod catalog;
pub mod exclusions;
pub mod listing;
pub mod random;
pub mod release;
pub mod select;
