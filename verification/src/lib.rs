//! A linter for Vitest test suites: test-smell rules over a parsed model of
//! TypeScript test files, inline suppressions, configuration and the engine
//! that ties them together.

pub mod config;
pub mod engine;
pub mod graph;
pub mod json;
pub mod models;
pub mod order;
pub mod parser;
pub mod paths;
pub mod rules;
pub mod seqs;
pub mod suppression;
pub mod syntax;
pub mod text;
pub mod tsconfig;
