//! The chat view: nodes become styled lines, lines become rows, rows become a viewport.

pub mod chat_view;
pub mod fit;
pub mod format;
pub mod format_laws;
pub mod highlight;
pub mod highlight_laws;
pub mod inline_image;
pub mod ledger_laws;
pub mod list_laws;
pub mod look_laws;
pub mod markdown;
pub mod markdown_events;
pub mod node_laws;
pub mod pack_laws;
pub mod protocol_laws;
pub mod row_cache;
pub mod row_cache_laws;
pub mod row_laws;
pub mod signature;
pub mod sink;
pub mod sink_laws;
pub mod skill;
pub mod skill_laws;
pub mod style;
pub mod trajectory;
pub mod width;
pub mod wrap;
pub mod wrap_laws;
