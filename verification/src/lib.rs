//! A schema-on-write measurement store: projects own one wide table each, and
//! columns appear the first time a field name is seen.

pub mod api;
pub mod backend;
pub mod clock;
pub mod config;
pub mod database;
pub mod datapoint;
pub mod encoder;
pub mod engine;
pub mod error;
pub mod fields;
pub mod laws;
pub mod memory;
pub mod opener;
pub mod outcome;
pub mod project;
pub mod reading;
pub mod resolution;
pub mod resolver;
pub mod statement;
pub mod text;
pub mod value;
