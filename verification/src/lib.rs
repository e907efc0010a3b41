//! Terminal UI client for an agent gateway: the verified core.
//!
//! The library holds the client's logic as functions and state machines over
//! plain values: the conversation store, the event fold, the renderers that turn
//! chat nodes into styled lines, the key routing and the configuration rules.
//! Terminal, network and disk access live in the application around it.

pub mod app;
pub mod client;
pub mod clipboard;
pub mod gateway;
pub mod gateway_laws;
pub mod i18n;
pub mod i18n_laws;
pub mod json;
pub mod json_laws;
pub mod key;
pub mod render;
pub mod request_laws;
pub mod requests;
pub mod seqs;
pub mod store;
pub mod table;
pub mod text;
pub mod text_laws;
pub mod theme;
pub mod wire;
