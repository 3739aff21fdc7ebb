//! Core of a multi-agent convergence pipeline: an append-only, category-keyed
//! fact store, the agent execution contract with its run-once gate, a
//! deterministic text-to-fact response parser, a fixed-point scheduler, and a
//! fixture-based evaluation harness.

pub mod agents;
pub mod config;
pub mod engine;
pub mod evals;
pub mod facts;
pub mod fixtures;
pub mod llm;
pub mod packs;
pub mod parser;
pub mod streaming;
pub mod text;
pub mod ui;
