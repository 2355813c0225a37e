//! Declarative infrastructure provisioning: a resource reconciliation engine
//! that drives a SQL-speaking query engine toward the state a manifest declares.

pub mod strmap;
pub mod text;
pub mod context;
pub mod engine;
pub mod template;
pub mod num;
pub mod keyed;
pub mod queries;
pub mod executor;
pub mod manifest;
pub mod reconciler;
pub mod json;
pub mod config;
pub mod exports;
pub mod condition;
pub mod providers;
pub mod cli;
pub mod errors;
pub mod globals;
