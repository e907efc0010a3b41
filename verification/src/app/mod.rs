//! The application's decisions.

pub mod answer;
pub mod answer_laws;
pub mod attach;
pub mod catalog;
pub mod catalog_laws;
pub mod command;
pub mod dispatch;
pub mod draw;
pub mod editor;
pub mod editor_laws;
pub mod event;
pub mod frame_laws;
pub mod groups;
pub mod host;
pub mod image_laws;
pub mod images;
pub mod key_laws;
pub mod keys;
pub mod layout;
pub mod light;
pub mod line_laws;
pub mod list_laws;
pub mod mouse;
pub mod mouse_laws;
pub mod outcome_laws;
pub mod outcomes;
pub mod overlays;
pub mod run;
pub mod screen_laws;
pub mod selection_laws;
pub mod settings;
pub mod settings_laws;
pub mod sidebar;
pub mod startup;
pub mod state;
pub mod status;
pub mod status_laws;
pub mod surface_laws;
pub mod takeover;
pub mod takeover_laws;
pub mod worker_laws;
