//! Extraction, merging and write-back of translatable text in RPG-engine game data.
//!
//! The text of a game is held in line files of `original<#>translation` records. Reading
//! walks the game's command lists and records ([`walker`], [`variables`], [`lexer`]), keeps
//! what the classifier accepts ([`classify`]), and merges it with a saved file ([`merge`],
//! [`maps`]). Writing looks each text up again and puts its translation back ([`writeback`],
//! [`scripts`], [`plugins`]). Purging drops saved lines that are no longer found ([`purge`]).
use vstd::prelude::*;

pub mod classify;
pub mod lexer;
pub mod line_file;
pub mod maps;
pub mod merge;
pub mod plugins;
pub mod purge;
pub mod scripts;
pub mod table;
pub mod text;
pub mod types;
pub mod variables;
pub mod walker;
pub mod writeback;

verus! {

} // verus!
