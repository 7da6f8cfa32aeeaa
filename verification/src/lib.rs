//! An agent-orchestration kernel: a verified reason-act-observe loop.
//!
//! The library holds the logic of the loop — the tool registry with its
//! argument validation, the reasoning engine's prompt building and decision
//! parsing, the observation filter, the loop's state machine, and the
//! single-step task adapter. Network calls (the chat-completion backends and
//! the scrape/search endpoint) are performed by a driver outside the library,
//! which feeds their outcomes back in as plain values.

pub mod engine;
pub mod filter;
pub mod llm_tasks;
pub mod react;
pub mod registry;
pub mod scraper;
pub mod text;
pub mod turns;
pub mod web_tools;
