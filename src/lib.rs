//! Loads a pick'em pool's players, teams, games, matchups and picks from CSV
//! text into rows for a relational store with insert-or-replace semantics.
pub mod csvtext;
pub mod decode;
pub mod models;
pub mod run;
pub mod seed;
pub mod store;
