//! Daily gene-symbol puzzles: a Wordle-style guessing game and a
//! Spelling-Bee-style letter game, with their selection, scoring,
//! validation, generation and memoization logic verified.

pub mod genedle;
pub mod memo;
pub mod random;
pub mod registry;
pub mod scoring;
pub mod selector;
pub mod spelling_gene;
