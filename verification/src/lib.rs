//! Core logic of a bridge between a desktop front end and a line-oriented
//! coding agent: wire decoding, transcript reconstruction, session
//! bookkeeping, and the bounded, sandboxed tool layer.

pub mod auth;
pub mod browser;
pub mod chat;
pub mod clock;
pub mod config;
pub mod files;
pub mod history;
pub mod json;
pub mod listing;
pub mod mode;
pub mod order;
pub mod reader;
pub mod registry;
pub mod sandbox;
pub mod session;
pub mod settings;
pub mod skills;
pub mod storage;
pub mod stream;
pub mod text;
pub mod tool_defs;
pub mod tools;
pub mod transcript;
pub mod truncate;
pub mod usage;
pub mod wire;
