//! Filtering and summarising plain-text log files of the form
//! `[TIMESTAMP] LEVEL message`.

pub mod cli;
pub mod config;
pub mod matcher;
pub mod model;
pub mod parser;
pub mod recall;
pub mod report;
pub mod text;
