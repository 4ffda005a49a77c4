pub mod cli;
pub mod commands;
pub mod completions;
pub mod config;
pub mod document;
pub mod error;
pub mod names;
pub mod paths;
pub mod text;
