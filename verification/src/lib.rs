//! The state and the decisions of an interactive cleaner for Cargo `target` directories.

pub mod app;
pub mod appearance_laws;
pub mod arguments;
pub mod consistency;
pub mod delete;
pub mod draw;
pub mod duration;
pub mod duration_laws;
pub mod entry;
pub mod finding_laws;
pub mod key;
pub mod laws;
pub mod layout;
pub mod message;
pub mod model;
pub mod order_laws;
pub mod path;
pub mod path_laws;
pub mod path_set;
pub mod pieces;
pub mod popups;
pub mod removal_laws;
pub mod render;
pub mod rounding;
pub mod runs;
pub mod scan;
pub mod scan_laws;
pub mod screen_laws;
pub mod screen_text_laws;
pub mod search_laws;
pub mod selection_laws;
pub mod shown_laws;
pub mod size;
pub mod sort;
pub mod step_laws;
pub mod style;
pub mod table;
pub mod text;
pub mod time;
pub mod totals;
