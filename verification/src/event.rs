//! Key presses, the user commands they stand for, and what the application does
//! on each command.
use vstd::prelude::*;

use crate::app::{
    after_select_next, after_select_prev, selected_target, target_after_next,
    target_after_prev, App, AppView,
};

verus! {

/// A command of the user.
#[derive(Debug, Clone, Copy, PartialEq, Eq, Structural)]
pub enum AppEvent {
    SelectNext,
    SelectPrev,
    Focus,
    Refresh,
    Quit,
}

/// The key of a key press, as far as the key bindings tell keys apart.
#[derive(Debug, Clone, Copy, PartialEq, Eq, Structural)]
pub enum Key {
    Char(char),
    Up,
    Down,
    Enter,
    /// Any other key.
    Other,
}

/// A key press: the key and whether Control was held.
#[derive(Debug, Clone, Copy, PartialEq, Eq, Structural)]
pub struct KeyPress {
    pub code: Key,
    pub control: bool,
}

/// The key bindings: `j`/Down next window, `k`/Up previous window, `f`/Enter
/// focus, `r` refresh, `q` or Control-`c` quit; other keys do nothing.
pub open spec fn key_binding(key: KeyPress) -> Option<AppEvent> {
    match key.code {
        Key::Char(c) => if c == 'j' {
            Some(AppEvent::SelectNext)
        } else if c == 'k' {
            Some(AppEvent::SelectPrev)
        } else if c == 'f' {
            Some(AppEvent::Focus)
        } else if c == 'r' {
            Some(AppEvent::Refresh)
        } else if c == 'q' {
            Some(AppEvent::Quit)
        } else if c == 'c' && key.control {
            Some(AppEvent::Quit)
        } else {
            None
        },
        Key::Down => Some(AppEvent::SelectNext),
        Key::Up => Some(AppEvent::SelectPrev),
        Key::Enter => Some(AppEvent::Focus),
        Key::Other => None,
    }
}

/// The command that a key press stands for, if any.
pub fn map_key_event(key: KeyPress) -> (r: Option<AppEvent>)
    ensures
        r == key_binding(key),
{
    match key.code {
        Key::Char('j') | Key::Down => Some(AppEvent::SelectNext),
        Key::Char('k') | Key::Up => Some(AppEvent::SelectPrev),
        Key::Char('f') | Key::Enter => Some(AppEvent::Focus),
        Key::Char('r') => Some(AppEvent::Refresh),
        Key::Char('q') => Some(AppEvent::Quit),
        Key::Char('c') if key.control => Some(AppEvent::Quit),
        _ => None,
    }
}

/// What the caller is to do with tmux after a command.
#[derive(Debug)]
pub enum Effect {
    /// Nothing.
    Nothing,
    /// Capture the pane of this target and hand it to `App::apply_capture`.
    CapturePane(String),
    /// Switch the tmux client to this target; on failure hand the reason to
    /// `App::record_focus_failure`.
    SwitchClient(String),
    /// List the sessions and hand the listing to `App::refresh`.
    ListSessions,
}

/// `e` asks for the capture of target `t`, or for nothing when `t` is `None`.
pub open spec fn captures(e: Effect, t: Option<Seq<char>>) -> bool {
    match e {
        Effect::CapturePane(s) => t == Some(s@),
        Effect::Nothing => t is None,
        _ => false,
    }
}

impl App {
    /// Carries out command `event` on the state, and says what the caller is to
    /// do with tmux next.
    pub fn handle_event(&mut self, event: AppEvent) -> (e: Effect)
        requires
            event == AppEvent::SelectPrev ==> old(self).window_list.len() == 0
                || old(self).selected_index <= old(self).window_list.len(),
        ensures
            final(self).last_updated == old(self).last_updated,
            match event {
                AppEvent::Quit => final(self)@ == (AppView { should_quit: true, ..old(self)@ })
                    && e is Nothing,
                AppEvent::SelectNext => final(self)@ == after_select_next(old(self)@) && captures(
                    e,
                    target_after_next(old(self)@),
                ),
                AppEvent::SelectPrev => final(self)@ == after_select_prev(old(self)@) && captures(
                    e,
                    target_after_prev(old(self)@),
                ),
                AppEvent::Focus => final(self)@ == old(self)@ && match e {
                    Effect::SwitchClient(t) => selected_target(old(self)@) == Some(t@),
                    Effect::Nothing => selected_target(old(self)@) is None,
                    _ => false,
                },
                AppEvent::Refresh => final(self)@ == old(self)@ && e is ListSessions,
            },
    {
        match event {
            AppEvent::Quit => {
                self.should_quit = true;
                assert(self@ =~= (AppView { should_quit: true, ..old(self)@ }));
                Effect::Nothing
            },
            AppEvent::SelectNext => match self.select_next() {
                Some(t) => Effect::CapturePane(t),
                None => Effect::Nothing,
            },
            AppEvent::SelectPrev => match self.select_prev() {
                Some(t) => Effect::CapturePane(t),
                None => Effect::Nothing,
            },
            AppEvent::Focus => match self.focus_selected() {
                Some(t) => Effect::SwitchClient(t),
                None => Effect::Nothing,
            },
            AppEvent::Refresh => Effect::ListSessions,
        }
    }
}

/// How often, in milliseconds, the sessions are listed again on their own.
pub const REFRESH_INTERVAL_MS: u128 = 5000;

/// Whether the sessions are due to be listed again, `elapsed_ms` milliseconds
/// (rounded down) after the last listing: once five seconds have passed.
pub fn refresh_due(elapsed_ms: u128) -> (r: bool)
    ensures
        r == (elapsed_ms >= 5000),
{
    elapsed_ms >= REFRESH_INTERVAL_MS
}

} // verus!
