//! Fuzzy resolution of short, human-typed entity names: a tokenizer, an
//! incrementally maintained TF-IDF index, a string-similarity heuristic, the
//! resolver that combines them, and the confirm-or-abort protocol built on it.

use vstd::prelude::*;

pub mod text;
pub mod similarity;
pub mod index;
pub mod resolver;
pub mod laws;
pub mod protocol;
pub mod editor;
pub mod models;
pub mod cli;
pub mod command;
pub mod search;
pub mod interaction;

verus! {

} // verus!
