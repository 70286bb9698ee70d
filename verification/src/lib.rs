//! OpenOrchestrator: one gateway, one main brain and the agents it spawns, a
//! memory that lasts, Slack, and a chat in the terminal.
//!
//! The library decides; what it decides is done around it. Its functions take
//! plain values and give plain values back, and their contracts say exactly
//! which.
pub mod agents;
pub mod api_laws;
pub mod chat;
pub mod codex;
pub mod command_laws;
pub mod commands;
pub mod config;
pub mod config_laws;
pub mod edge_laws;
pub mod gateway;
pub mod inbox_laws;
pub mod json;
pub mod message_laws;
pub mod number;
pub mod onboarding;
pub mod orchestrator;
pub mod orchestrator_laws;
pub mod outbox_laws;
pub mod outside;
pub mod paths;
pub mod prompt;
pub mod recall_laws;
pub mod request_laws;
pub mod search_laws;
pub mod slack;
pub mod slack_api;
pub mod slack_files;
pub mod slack_files_laws;
pub mod slack_laws;
pub mod socket;
pub mod state;
pub mod state_laws;
pub mod text;
pub mod text_laws;
pub mod tui;
