//! A verified core for managing LaTeX study notes: subjects, notes and shelves
//! as path computations, the string helpers that name them, the template
//! registry that renders them, and the compilation runs that build them.
pub mod text;
pub mod helpers;
pub mod error;
pub mod shelf;
pub mod items;
pub mod masternote;
pub mod subjects;
pub mod templates;
pub mod note;
pub mod config;
pub mod consts;
pub mod profile;
pub mod types;
pub mod commands;
pub mod args;
pub mod compile;
pub mod data;
