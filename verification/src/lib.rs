pub mod ai;
pub mod app;
pub mod cli;
pub mod code_blocks;
pub mod commands;
pub mod diff_parser;
pub mod error;
pub mod git;
pub mod models;
pub mod screens;
pub mod session;
pub mod text;
