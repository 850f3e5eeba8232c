//! Evolutionary search over teams of reasoning agents.
//!
//! A population of teams answers one problem. Every team is a handful of
//! agents. Each agent puts the problem to a model under a genotype of its
//! own: a strategy, a temperature, instructions and hints. One agent of a
//! team may be set against the others, to find their errors. Judges score
//! what the teams produce, the best teams survive, and the rest of the next
//! generation is bred from them by crossover and mutation, until a team is
//! good enough or the generations are used up.
//!
//! This library holds the rules of that search and proves them with Verus:
//! how prompts are built, how a team's execution proceeds, how outputs are
//! scored and ranked, how knowledge is carried from one generation to the
//! next, and how the run is steered. Calling the models is left to the
//! program around it: the library says what is to be asked and takes the
//! answers.
//!
//! Temperatures, probabilities, scores, weights and penalties are whole
//! numbers of millionths, so that every figure is exact: a score of `7.5`
//! is `7_500_000`.

pub mod agent;
pub mod arena;
pub mod chance;
pub mod config;
pub mod evolution;
pub mod form;
pub mod genotype;
pub mod judge;
pub mod knowledge;
pub mod llm;
pub mod numeral;
pub mod orchestrator;
pub mod similarity;
pub mod team;
pub mod text;
