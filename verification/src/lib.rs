//! Verified core of a command-line LLM agent: the safety filter for shell
//! commands, tool-call extraction from model replies, the tool and turn decisions,
//! conversation summarization and the text shaping of web results.
pub mod agent;
pub mod chat;
pub mod commands;
pub mod config;
pub mod json;
pub mod safety;
pub mod summary;
pub mod text;
pub mod web;
