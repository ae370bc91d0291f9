//! deptty: the terminal's own logic, apart from windows, processes and files.
//!
//! A session is a row of tabs, each a binary split tree of panes, each pane one
//! shell (`tree`, `geometry`, `tab`, `session`, `dividers`). Keys and the mouse
//! become bytes for the shell or commands for the session (`keys`, `mouse`,
//! `input`, `command`). A terminal's cells become drawing operations (`cells`,
//! `color`, `render`, `pane_view`). Configuration, themes and what is remembered
//! are in `config`, `theme` and `state`.
//!
//! The modules whose names end in `_laws` state what holds of all this whatever it
//! is given: what a result looks like and how one operation relates to another.
pub mod call_laws;
pub mod cells;
pub mod color;
pub mod color_laws;
pub mod command;
pub mod command_laws;
pub mod config;
pub mod config_laws;
pub mod dividers;
pub mod geometry;
pub mod geometry_laws;
pub mod ink_laws;
pub mod input;
pub mod input_laws;
pub mod keys;
pub mod keys_laws;
pub mod link_laws;
pub mod mouse;
pub mod mouse_laws;
pub mod notify;
pub mod pane_laws;
pub mod pane_view;
pub mod place_laws;
pub mod qt;
pub mod ratio;
pub mod render;
pub mod render_laws;
pub mod session;
pub mod session_laws;
pub mod shell;
pub mod state;
pub mod tab;
pub mod surgery_laws;
pub mod text;
pub mod text_laws;
pub mod theme;
pub mod theme_laws;
pub mod title;
pub mod tree;
pub mod tree_laws;
pub mod url;

pub use crate::cells::grid_text;
pub use crate::command::context_menu;
pub use crate::config::match_action;
pub use crate::render::Cursor;
pub use crate::render::GridGeom;
pub use crate::session::App;
pub use crate::session::close_tab;
pub use crate::session::cycle_pane;
pub use crate::session::focus_pane_dir;
pub use crate::session::spawn_tab;
pub use crate::session::split_pane;
pub use crate::session::switch_tab;
pub use crate::tab::Pane;
pub use crate::tab::Tab;
pub use crate::tree::Node;
