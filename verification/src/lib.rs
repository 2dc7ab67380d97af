//! Core of a linter for a small, C-like source language: a literal-value
//! resolver, structural rules over syntax data, an import classifier, an
//! autofix edit engine, and a configuration model, all verified.

pub mod ast;
pub mod configuration;
pub mod edit;
pub mod error;
pub mod f001;
pub mod f002;
pub mod file_linter;
pub mod laws;
pub mod module_linter;
pub mod sa1000;
pub mod sa1001;
pub mod sa1002;
pub mod scope;
pub mod std_imports;
pub mod text;
