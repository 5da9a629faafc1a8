//! Verified core of gander, a tabbed desktop client for goose.

pub mod acp;
pub mod app;
pub mod chat;
pub mod config;
pub mod ext;
pub mod json;
pub mod markdown;
pub mod path;
pub mod startup;
pub mod state;
pub mod supervisor;
pub mod tab;
pub mod text;
pub mod tool_call;
pub mod transport;
pub mod webview;
