//! A mutation-testing engine for Move smart-contract source.
//!
//! The library walks a model of the parsed source, finds places where a
//! semantics-altering edit can be inserted, generates concrete mutants under a
//! curated operator set with suppression of known equivalent mutants, filters
//! candidates by unit-test coverage, and aggregates the outcome of running an
//! external oracle on each mutant into a report.

pub mod analyzer;
pub mod ast;
pub mod benchmark;
pub mod cli;
pub mod configuration;
pub mod coverage;
pub mod display_report;
pub mod generate;
pub mod mutant;
pub mod mutate;
pub mod mutation;
pub mod mutation_test;
pub mod operator_filter;
pub mod operators;
pub mod report;
pub mod span;
pub mod spec_test;
pub mod text;
pub mod tmp_package_dir;
