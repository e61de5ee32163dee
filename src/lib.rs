//! A proof-search core: judgments described as rule tables, evaluated by a
//! coinductive fixed-point interpreter that breaks cycles through a call stack
//! and reports why no rule could derive a result.
pub mod outcome;
pub mod rules;
pub mod stack;
pub mod engine;
pub mod db;
pub mod laws;
