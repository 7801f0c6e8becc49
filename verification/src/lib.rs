//! Verified core of a private daily-log agent.
pub mod text;
pub mod commands;
pub mod categories;
pub mod i18n;
pub mod models;
pub mod prompts;
pub mod privacy;
pub mod agent;
pub mod order;
pub mod classify;
pub mod telegram;
pub mod cli;
pub mod search;
pub mod endpoints;
pub mod media;
