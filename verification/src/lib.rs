//! `vocab`: capture the words you don't know as you read.
pub mod text;
pub mod domain;
pub mod dictionary;
pub mod cards;
pub mod ui;
pub mod notes;
pub mod anki;
pub mod deepseek;
pub mod config;
pub mod store;
pub mod search;
pub mod app;
