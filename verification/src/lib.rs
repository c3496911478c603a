//! Verified core of the herdr terminal workspace manager: pane-title formats,
//! the endpoint handshake contract, tab-strip geometry, git refresh
//! scheduling, keybinding resolution and popup addressing.

pub mod text;
pub mod pane_title;
pub mod endpoint;
pub mod geometry;
pub mod path;
pub mod tab_strip;
pub mod shell_tab_bar;
pub mod tab_bar_view;
pub mod git_refresh;
pub mod keybindings;
pub mod widgets;
pub mod popup;
pub mod config_edit;
