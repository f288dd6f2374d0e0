//! Library core of a terminal browser for tmux sessions and windows: the parsing
//! of tmux's listings, the cleaning of captured panes, the window list shown to
//! the user and the selection that moves over it.
pub mod ansi;
pub mod app;
pub mod clock;
pub mod display;
pub mod event;
pub mod selection;
pub mod text;
pub mod tmux;
