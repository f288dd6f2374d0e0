//! The window list shown to the user, the selection that moves over it, and the
//! state of the application between tmux calls.
use vstd::prelude::*;

use std::time::Instant;

use crate::ansi::strip_ansi_spec;
use crate::clock::instant_now;
use crate::selection::{
    down_then_up_returns, is_window_row, lemma_mod_pred, lemma_mod_succ, moves_find_a_window,
    moves_land_on_windows, next_window, prev_window, search_backward, search_forward,
    up_then_down_returns,
};
use crate::text::{append_chars, chars_of, decimal, push_decimal, string_of};
use crate::tmux::{
    elapsed_secs, elapsed_text, pane_preview, sessions_view, target_spec, utf8_lossy, SessionView,
    TmuxSession, TmuxWindow, WindowView,
};

verus! {

/// What a row of the window list stands for.
#[derive(Debug, Clone, Copy, PartialEq, Eq, Structural)]
pub enum ItemKind {
    SessionHeader,
    Window,
}

/// A row of the window list: a session header or one of the session's windows.
#[derive(Debug)]
pub struct WindowListItem {
    pub kind: ItemKind,
    pub label: String,
    pub session_name: Option<String>,
    pub window: Option<TmuxWindow>,
}

/// The mathematical content of a [`WindowListItem`].
pub struct ItemView {
    pub kind: ItemKind,
    pub label: Seq<char>,
    pub session_name: Option<Seq<char>>,
    pub window: Option<WindowView>,
}

/// The view of an optional string.
pub open spec fn opt_str(o: Option<String>) -> Option<Seq<char>> {
    match o {
        Some(s) => Some(s@),
        None => None,
    }
}

impl View for WindowListItem {
    type V = ItemView;

    open spec fn view(&self) -> ItemView {
        ItemView {
            kind: self.kind,
            label: self.label@,
            session_name: opt_str(self.session_name),
            window: match self.window {
                Some(w) => Some(w@),
                None => None,
            },
        }
    }
}

/// The views of a sequence of list rows.
pub open spec fn items_view(items: Seq<WindowListItem>) -> Seq<ItemView> {
    items.map_values(|i: WindowListItem| i@)
}

impl Clone for WindowListItem {
    fn clone(&self) -> (r: WindowListItem)
        ensures
            r@ == self@,
    {
        WindowListItem {
            kind: self.kind,
            label: self.label.clone(),
            session_name: match &self.session_name {
                Some(s) => Some(s.clone()),
                None => None,
            },
            window: match &self.window {
                Some(w) => Some(w.clone()),
                None => None,
            },
        }
    }
}

/// The header row of session `name`, labelled `[name]`.
pub open spec fn header_item(name: Seq<char>) -> ItemView {
    ItemView {
        kind: ItemKind::SessionHeader,
        label: seq!['['] + name + seq![']'],
        session_name: Some(name),
        window: None,
    }
}

/// The marker in front of a window's label: a triangle for the window that is
/// active in its session, a space otherwise.
pub open spec fn active_marker(w: WindowView) -> Seq<char> {
    if w.is_active { seq!['\u{25b6}'] } else { seq![' '] }
}

/// The label of window `w` when `now` is the current Unix time:
/// `"  {marker} {index}: {name} ({elapsed})"`.
pub open spec fn window_label(w: WindowView, now: i64) -> Seq<char> {
    seq![' ', ' '] + active_marker(w) + seq![' '] + decimal(w.window_index as nat) + seq![':', ' ']
        + w.window_name + seq![' ', '('] + elapsed_text(elapsed_secs(w, now)) + seq![')']
}

/// The row of window `w` when `now` is the current Unix time.
pub open spec fn window_entry(w: WindowView, now: i64) -> ItemView {
    ItemView {
        kind: ItemKind::Window,
        label: window_label(w, now),
        session_name: Some(w.session_name),
        window: Some(w),
    }
}

/// The rows of one session: its header, then a row for each of its windows.
pub open spec fn session_rows(s: SessionView, now: i64) -> Seq<ItemView> {
    seq![header_item(s.name)] + s.windows.map_values(|w: WindowView| window_entry(w, now))
}

/// The window list for `sessions`: for each session in order, its rows.
pub open spec fn window_list_spec(sessions: Seq<SessionView>, now: i64) -> Seq<ItemView>
    decreases sessions.len(),
{
    if sessions.len() == 0 {
        Seq::empty()
    } else {
        window_list_spec(sessions.drop_last(), now) + session_rows(sessions.last(), now)
    }
}

impl WindowListItem {
    /// The header row of session `name`.
    pub fn session_header(name: &str) -> (r: WindowListItem)
        ensures
            r@ == header_item(name@),
    {
        let mut label: Vec<char> = Vec::new();
        label.push('[');
        let chars = chars_of(name);
        let mut i: usize = 0;
        while i < chars.len()
            invariant
                i <= chars.len(),
                label@ == seq!['['] + chars@.take(i as int),
            decreases chars.len() - i,
        {
            label.push(chars[i]);
            assert(chars@.take(i + 1) == chars@.take(i as int).push(chars@[i as int]));
            i = i + 1;
        }
        assert(chars@.take(chars.len() as int) == chars@);
        label.push(']');
        assert(label@ =~= seq!['['] + name@ + seq![']']);
        WindowListItem {
            kind: ItemKind::SessionHeader,
            label: string_of(&label),
            session_name: Some(name.to_owned()),
            window: None,
        }
    }

    /// The row of window `win` when `now` is the current Unix time.
    pub fn window_item(win: &TmuxWindow, now: i64) -> (r: WindowListItem)
        ensures
            r@ == window_entry(win@, now),
    {
        let mut label: Vec<char> = Vec::new();
        label.push(' ');
        label.push(' ');
        if win.is_active {
            label.push('\u{25b6}');
        } else {
            label.push(' ');
        }
        label.push(' ');
        push_decimal(&mut label, win.window_index as u64);
        label.push(':');
        label.push(' ');
        let name = chars_of(win.window_name.as_str());
        label.append(&mut name.clone());
        label.push(' ');
        label.push('(');
        let elapsed = chars_of(win.elapsed_display(now).as_str());
        label.append(&mut elapsed.clone());
        label.push(')');
        assert(label@ =~= window_label(win@, now));
        WindowListItem {
            kind: ItemKind::Window,
            label: string_of(&label),
            session_name: Some(win.session_name.clone()),
            window: Some(win.clone()),
        }
    }
}

/// The window list for `sessions` when `now` is the current Unix time.
pub fn build_window_list(sessions: &Vec<TmuxSession>, now: i64) -> (r: Vec<WindowListItem>)
    ensures
        items_view(r@) == window_list_spec(sessions_view(sessions@), now),
{
    let ghost ss = sessions_view(sessions@);
    let mut list: Vec<WindowListItem> = Vec::new();
    let mut i: usize = 0;
    while i < sessions.len()
        invariant
            i <= sessions.len(),
            ss == sessions_view(sessions@),
            items_view(list@) == window_list_spec(ss.take(i as int), now),
        decreases sessions.len() - i,
    {
        let session = &sessions[i];
        let ghost before = items_view(list@);
        list.push(WindowListItem::session_header(session.name.as_str()));
        let ghost sv = ss[i as int];
        assert(sv == session@);
        let mut j: usize = 0;
        while j < session.windows.len()
            invariant
                j <= session.windows.len(),
                sv == session@,
                items_view(list@) == before + seq![header_item(sv.name)] + sv.windows.take(
                    j as int,
                ).map_values(|w: WindowView| window_entry(w, now)),
            decreases session.windows.len() - j,
        {
            let ghost mid = items_view(list@);
            list.push(WindowListItem::window_item(&session.windows[j], now));
            assert(sv.windows[j as int] == session.windows@[j as int]@);
            assert(sv.windows.take(j + 1) == sv.windows.take(j as int).push(sv.windows[j as int]));
            assert(items_view(list@) =~= mid.push(window_entry(sv.windows[j as int], now)));
            assert(items_view(list@) =~= before + seq![header_item(sv.name)] + sv.windows.take(
                j + 1,
            ).map_values(|w: WindowView| window_entry(w, now)));
            j = j + 1;
        }
        assert(sv.windows.take(session.windows.len() as int) == sv.windows);
        assert(ss.take(i + 1).drop_last() == ss.take(i as int));
        assert(ss.take(i + 1).last() == sv);
        assert(items_view(list@) =~= window_list_spec(ss.take(i + 1), now));
        i = i + 1;
    }
    assert(ss.take(sessions.len() as int) == ss);
    list
}


/// The state of the application: the sessions last listed, the window list built
/// from them, the selected row, the preview of the selected window, the last
/// error, and whether the user asked to quit.
pub struct App {
    pub sessions: Vec<TmuxSession>,
    pub window_list: Vec<WindowListItem>,
    pub selected_index: usize,
    pub preview_content: String,
    pub last_updated: Instant,
    pub error_message: Option<String>,
    pub should_quit: bool,
}

/// The mathematical content of an [`App`] (all but the opaque update instant).
#[verifier::ext_equal]
pub struct AppView {
    pub sessions: Seq<SessionView>,
    pub window_list: Seq<ItemView>,
    pub selected_index: int,
    pub preview_content: Seq<char>,
    pub error_message: Option<Seq<char>>,
    pub should_quit: bool,
}

impl View for App {
    type V = AppView;

    open spec fn view(&self) -> AppView {
        AppView {
            sessions: sessions_view(self.sessions@),
            window_list: items_view(self.window_list@),
            selected_index: self.selected_index as int,
            preview_content: self.preview_content@,
            error_message: opt_str(self.error_message),
            should_quit: self.should_quit,
        }
    }
}

/// The tmux target of the window in row `sel`, when that row exists and holds a
/// window.
pub open spec fn preview_target(list: Seq<ItemView>, sel: int) -> Option<Seq<char>> {
    if 0 <= sel < list.len() {
        match list[sel].window {
            Some(w) => Some(target_spec(w)),
            None => None,
        }
    } else {
        None
    }
}

/// The state after the preview is brought up to date with the selection: when the
/// selected row holds a window its pane is to be captured (the caller hands the
/// capture back), otherwise the preview is emptied.
pub open spec fn after_refresh_preview(a: AppView) -> AppView {
    if preview_target(a.window_list, a.selected_index) is Some {
        a
    } else {
        AppView { preview_content: Seq::empty(), ..a }
    }
}

/// The state after moving the selection down to the next window row.
pub open spec fn after_select_next(a: AppView) -> AppView {
    match next_window(a.window_list, a.selected_index) {
        Some(k) => after_refresh_preview(AppView { selected_index: k, ..a }),
        None => a,
    }
}

/// The pane to capture after moving the selection down.
pub open spec fn target_after_next(a: AppView) -> Option<Seq<char>> {
    match next_window(a.window_list, a.selected_index) {
        Some(k) => preview_target(a.window_list, k),
        None => None,
    }
}

/// The state after moving the selection up to the previous window row.
pub open spec fn after_select_prev(a: AppView) -> AppView {
    match prev_window(a.window_list, a.selected_index) {
        Some(k) => after_refresh_preview(AppView { selected_index: k, ..a }),
        None => a,
    }
}

/// The pane to capture after moving the selection up.
pub open spec fn target_after_prev(a: AppView) -> Option<Seq<char>> {
    match prev_window(a.window_list, a.selected_index) {
        Some(k) => preview_target(a.window_list, k),
        None => None,
    }
}

/// The state after the selection is brought back into the list: zero for an empty
/// list, the last row when it lies past the end, and, when it then rests on a
/// session header, moved down to the next window row.
pub open spec fn after_clamp(a: AppView) -> AppView {
    let len = a.window_list.len();
    if len == 0 {
        AppView { selected_index: 0, ..a }
    } else {
        let s: int = if a.selected_index >= len { len - 1 } else { a.selected_index };
        let b = AppView { selected_index: s, ..a };
        if a.window_list[s].kind == ItemKind::SessionHeader {
            after_select_next(b)
        } else {
            b
        }
    }
}

/// `"Error: "` followed by `msg`.
pub open spec fn listing_error_text(msg: Seq<char>) -> Seq<char> {
    seq!['E', 'r', 'r', 'o', 'r', ':', ' '] + msg
}

/// `"Focus failed: "` followed by `msg`.
pub open spec fn focus_error_text(msg: Seq<char>) -> Seq<char> {
    seq!['F', 'o', 'c', 'u', 's', ' ', 'f', 'a', 'i', 'l', 'e', 'd', ':', ' '] + msg
}

/// The view of a session listing, or of the message of its failure.
pub open spec fn listing_view(listing: Result<Vec<TmuxSession>, String>) -> Result<
    Seq<SessionView>,
    Seq<char>,
> {
    match listing {
        Ok(ss) => Ok(sessions_view(ss@)),
        Err(e) => Err(e@),
    }
}

/// The state after a session listing comes in, when `now` is the current Unix
/// time. A listing replaces the sessions, clears the error, rebuilds the window
/// list and brings the selection back into it; a failure keeps everything and
/// records `Error: {message}`. Either way the preview is then brought up to date.
pub open spec fn after_listing(
    a: AppView,
    listing: Result<Seq<SessionView>, Seq<char>>,
    now: i64,
) -> AppView {
    match listing {
        Ok(ss) => after_refresh_preview(
            after_clamp(
                AppView {
                    sessions: ss,
                    error_message: None,
                    window_list: window_list_spec(ss, now),
                    ..a
                },
            ),
        ),
        Err(e) => after_refresh_preview(
            AppView { error_message: Some(listing_error_text(e)), ..a },
        ),
    }
}

/// The pane to capture once the state is `a`: that of the selected window.
pub open spec fn selected_target(a: AppView) -> Option<Seq<char>> {
    preview_target(a.window_list, a.selected_index)
}

impl App {
    /// An application with nothing listed yet.
    pub fn new() -> (r: App)
        ensures
            r@ == (AppView {
                sessions: Seq::empty(),
                window_list: Seq::empty(),
                selected_index: 0,
                preview_content: Seq::empty(),
                error_message: None,
                should_quit: false,
            }),
    {
        let r = App {
            sessions: Vec::new(),
            window_list: Vec::new(),
            selected_index: 0,
            preview_content: String::new(),
            last_updated: instant_now(),
            error_message: None,
            should_quit: false,
        };
        assert(r@ =~= (AppView {
            sessions: Seq::empty(),
            window_list: Seq::empty(),
            selected_index: 0,
            preview_content: Seq::empty(),
            error_message: None,
            should_quit: false,
        }));
        r
    }

    /// Brings the preview up to date with the selection. Returns the tmux target
    /// of the selected window, whose pane the caller captures and hands to
    /// [`App::apply_capture`]; when no window is selected the preview is emptied
    /// and `None` comes back.
    pub fn refresh_preview(&mut self) -> (target: Option<String>)
        ensures
            final(self)@ == after_refresh_preview(old(self)@),
            opt_str(target) == selected_target(old(self)@),
            final(self).last_updated == old(self).last_updated,
    {
        if self.selected_index < self.window_list.len() {
            let item = &self.window_list[self.selected_index];
            match &item.window {
                Some(win) => {
                    return Some(win.target());
                },
                None => {},
            }
        }
        self.preview_content = String::new();
        assert(self@ =~= after_refresh_preview(old(self)@));
        None
    }

    /// Moves the selection down to the next window row, wrapping around and
    /// passing session headers; when there is none it stays. Returns the pane to
    /// capture for the new selection.
    pub fn select_next(&mut self) -> (target: Option<String>)
        ensures
            final(self)@ == after_select_next(old(self)@),
            opt_str(target) == target_after_next(old(self)@),
            final(self).last_updated == old(self).last_updated,
    {
        let len = self.window_list.len();
        if len == 0 {
            return None;
        }
        let ghost list = self@.window_list;
        let ghost sel = self.selected_index as int;
        let mut next = (self.selected_index % len + 1) % len;
        proof {
            lemma_mod_succ(sel, len as int);
        }
        let mut remaining: usize = len;
        let ghost mut d: nat = 1;
        let mut found = false;
        while remaining > 0 && !found
            invariant
                len == self.window_list.len(),
                list == self@.window_list,
                len > 0,
                1 <= d <= len + 1,
                d + remaining == len + 1,
                next < len,
                d <= len ==> next == (sel + d) % (len as int),
                found ==> d <= len && list[next as int].kind == ItemKind::Window
                    && search_forward(list, sel, 1) == Some(next as int),
                !found ==> search_forward(list, sel, 1) == search_forward(list, sel, d),
            decreases remaining + (if found { 0int } else { 1int }),
        {
            if self.window_list[next].kind == ItemKind::Window {
                found = true;
            } else {
                proof {
                    lemma_mod_succ(sel + d, len as int);
                }
                next = (next + 1) % len;
                remaining = remaining - 1;
                proof {
                    d = d + 1;
                }
            }
        }
        if found {
            self.selected_index = next;
            self.refresh_preview()
        } else {
            None
        }
    }

    /// Moves the selection up to the previous window row, wrapping around and
    /// passing session headers; when there is none it stays. Returns the pane to
    /// capture for the new selection.
    pub fn select_prev(&mut self) -> (target: Option<String>)
        requires
            old(self).window_list.len() == 0 || old(self).selected_index <= old(
                self,
            ).window_list.len(),
        ensures
            final(self)@ == after_select_prev(old(self)@),
            opt_str(target) == target_after_prev(old(self)@),
            final(self).last_updated == old(self).last_updated,
    {
        let len = self.window_list.len();
        if len == 0 {
            return None;
        }
        let ghost list = self@.window_list;
        let ghost sel = self.selected_index as int;
        let mut prev = if self.selected_index == 0 {
            len - 1
        } else {
            self.selected_index - 1
        };
        proof {
            vstd::arithmetic::div_mod::lemma_small_mod(prev as nat, len as nat);
            if sel == 0 {
                vstd::arithmetic::div_mod::lemma_mod_add_multiples_vanish(-1, len as int);
            }
        }
        let mut remaining: usize = len;
        let ghost mut d: nat = 1;
        let mut found = false;
        while remaining > 0 && !found
            invariant
                len == self.window_list.len(),
                list == self@.window_list,
                len > 0,
                1 <= d <= len + 1,
                d + remaining == len + 1,
                prev < len,
                d <= len ==> prev == (sel - d) % (len as int),
                found ==> d <= len && list[prev as int].kind == ItemKind::Window
                    && search_backward(list, sel, 1) == Some(prev as int),
                !found ==> search_backward(list, sel, 1) == search_backward(list, sel, d),
            decreases remaining + (if found { 0int } else { 1int }),
        {
            if self.window_list[prev].kind == ItemKind::Window {
                found = true;
            } else {
                proof {
                    lemma_mod_pred(sel - d, len as int);
                    if prev > 0 {
                        vstd::arithmetic::div_mod::lemma_small_mod((prev - 1) as nat, len as nat);
                    } else {
                        vstd::arithmetic::div_mod::lemma_mod_add_multiples_vanish(-1, len as int);
                        vstd::arithmetic::div_mod::lemma_small_mod((len - 1) as nat, len as nat);
                    }
                }
                prev = if prev == 0 {
                    len - 1
                } else {
                    prev - 1
                };
                remaining = remaining - 1;
                proof {
                    d = d + 1;
                }
            }
        }
        if found {
            self.selected_index = prev;
            self.refresh_preview()
        } else {
            None
        }
    }

    /// The tmux target of the selected window, which the caller switches the
    /// tmux client to; `None` when no window is selected.
    pub fn focus_selected(&self) -> (target: Option<String>)
        ensures
            opt_str(target) == selected_target(self@),
    {
        if self.selected_index < self.window_list.len() {
            match &self.window_list[self.selected_index].window {
                Some(win) => Some(win.target()),
                None => None,
            }
        } else {
            None
        }
    }

    /// Records that switching the tmux client failed, with `reason`:
    /// the error becomes `Focus failed: {reason}`.
    pub fn record_focus_failure(&mut self, reason: &str)
        ensures
            final(self)@ == (AppView { error_message: Some(focus_error_text(reason@)), ..old(self)@ }),
            final(self).last_updated == old(self).last_updated,
    {
        let mut msg: Vec<char> = Vec::new();
        append_chars(&mut msg, "Focus failed: ");
        proof {
            reveal_strlit("Focus failed: ");
        }
        append_chars(&mut msg, reason);
        assert(msg@ =~= focus_error_text(reason@));
        self.error_message = Some(string_of(&msg));
        assert(self@ =~= (AppView { error_message: Some(focus_error_text(reason@)), ..old(self)@ }));
    }

    /// Takes in the capture of the selected pane: the raw bytes that
    /// `tmux capture-pane` printed, or `None` when the capture failed. The preview
    /// becomes the decoded text without escape sequences, or
    /// `No preview available`.
    pub fn apply_capture(&mut self, captured: Option<&[u8]>)
        ensures
            final(self)@ == (AppView {
                preview_content: match captured {
                    Some(bytes) => strip_ansi_spec(utf8_lossy(bytes@)),
                    None => "No preview available"@,
                },
                ..old(self)@
            }),
            final(self).last_updated == old(self).last_updated,
    {
        match captured {
            Some(bytes) => {
                self.preview_content = pane_preview(bytes);
            },
            None => {
                self.preview_content = "No preview available".to_owned();
            },
        }
        assert(self@ =~= (AppView {
            preview_content: match captured {
                Some(bytes) => strip_ansi_spec(utf8_lossy(bytes@)),
                None => "No preview available"@,
            },
            ..old(self)@
        }));
    }

    fn clamp_selection(&mut self)
        ensures
            final(self)@ == after_clamp(old(self)@),
            final(self).last_updated == old(self).last_updated,
    {
        let len = self.window_list.len();
        if len == 0 {
            self.selected_index = 0;
            assert(self@ =~= after_clamp(old(self)@));
            return;
        }
        if self.selected_index >= len {
            self.selected_index = len - 1;
        }
        if self.window_list[self.selected_index].kind == ItemKind::SessionHeader {
            let _ = self.select_next();
        }
        assert(self@ =~= after_clamp(old(self)@));
    }

    fn rebuild_window_list(&mut self, now: i64)
        ensures
            final(self)@ == (AppView {
                window_list: window_list_spec(old(self)@.sessions, now),
                ..old(self)@
            }),
            final(self).last_updated == old(self).last_updated,
    {
        self.window_list = build_window_list(&self.sessions, now);
        assert(self@ =~= (AppView {
            window_list: window_list_spec(old(self)@.sessions, now),
            ..old(self)@
        }));
    }

    /// Takes in a session listing (or the message of its failure) read when the
    /// Unix time was `now` and the monotonic clock read `updated`. Returns the
    /// pane to capture for the preview.
    pub fn refresh(
        &mut self,
        listing: Result<Vec<TmuxSession>, String>,
        now: i64,
        updated: Instant,
    ) -> (target: Option<String>)
        ensures
            final(self)@ == after_listing(old(self)@, listing_view(listing), now),
            opt_str(target) == selected_target(final(self)@),
            final(self).last_updated == (if listing is Ok { updated } else { old(self).last_updated }),
    {
        let ghost lv = listing_view(listing);
        match listing {
            Ok(sessions) => {
                self.sessions = sessions;
                self.error_message = None;
                self.rebuild_window_list(now);
                self.clamp_selection();
                self.last_updated = updated;
            },
            Err(e) => {
                let mut msg: Vec<char> = Vec::new();
                append_chars(&mut msg, "Error: ");
                proof {
                    reveal_strlit("Error: ");
                }
                append_chars(&mut msg, e.as_str());
                assert(msg@ =~= listing_error_text(e@));
                self.error_message = Some(string_of(&msg));
            },
        }
        let ghost mid = self@;
        assert(mid =~= match lv {
            Ok(ss) => after_clamp(
                AppView {
                    sessions: ss,
                    error_message: None,
                    window_list: window_list_spec(ss, now),
                    ..old(self)@
                },
            ),
            Err(e) => AppView { error_message: Some(listing_error_text(e)), ..old(self)@ },
        });
        self.refresh_preview()
    }
}

/// The selected row lies in the window list; with an empty list it is zero.
pub open spec fn selection_in_list(a: AppView) -> bool {
    if a.window_list.len() == 0 {
        a.selected_index == 0
    } else {
        0 <= a.selected_index < a.window_list.len()
    }
}

proof fn lemma_moves_keep_selection(a: AppView)
    requires
        selection_in_list(a),
    ensures
        selection_in_list(after_select_next(a)),
        selection_in_list(after_select_prev(a)),
        after_select_next(a).window_list == a.window_list,
        after_select_prev(a).window_list == a.window_list,
{
    moves_land_on_windows(a.window_list, a.selected_index);
}

/// After a listing the selection lies in the new window list, and rests on a
/// window row whenever the list has one.
pub proof fn listing_selects_a_window(a: AppView, ss: Seq<SessionView>, now: i64)
    requires
        a.selected_index >= 0,
    ensures
        ({
            let b = after_listing(a, Ok(ss), now);
            &&& b.window_list == window_list_spec(ss, now)
            &&& selection_in_list(b)
            &&& (exists|j: int| is_window_row(b.window_list, j)) ==> is_window_row(
                b.window_list,
                b.selected_index,
            )
        }),
{
    let list = window_list_spec(ss, now);
    let a1 = AppView { sessions: ss, error_message: None, window_list: list, ..a };
    let len = list.len();
    if len > 0 {
        let s: int = if a1.selected_index >= len { len - 1 } else { a1.selected_index };
        let b = AppView { selected_index: s, ..a1 };
        let c = after_clamp(a1);
        lemma_moves_keep_selection(b);
        if list[s].kind == ItemKind::SessionHeader {
            assert(c == after_select_next(b));
        } else {
            assert(c == b);
        }
        if exists|j: int| is_window_row(list, j) {
            let j = choose|j: int| is_window_row(list, j);
            moves_find_a_window(list, s, j);
            moves_land_on_windows(list, s);
        }
        assert(after_listing(a, Ok(ss), now) == after_refresh_preview(c));
    }
}

/// Every operation keeps the selection in the window list: moving down or up,
/// taking in a listing or its failure, recording a failed focus, taking in a
/// capture, quitting. (So the selection always meets what moving up asks.)
pub proof fn operations_keep_selection_in_list(
    a: AppView,
    listing: Result<Seq<SessionView>, Seq<char>>,
    now: i64,
    msg: Seq<char>,
    preview: Seq<char>,
)
    requires
        selection_in_list(a),
    ensures
        selection_in_list(after_select_next(a)),
        selection_in_list(after_select_prev(a)),
        selection_in_list(after_listing(a, listing, now)),
        selection_in_list(AppView { error_message: Some(focus_error_text(msg)), ..a }),
        selection_in_list(AppView { preview_content: preview, ..a }),
        selection_in_list(AppView { should_quit: true, ..a }),
{
    lemma_moves_keep_selection(a);
    match listing {
        Ok(ss) => {
            assert(a.selected_index >= 0);
            listing_selects_a_window(a, ss, now);
        },
        Err(e) => {},
    }
}

/// A new application's selection lies in its (empty) window list.
pub proof fn new_app_selection_in_list()
    ensures
        selection_in_list(
            AppView {
                sessions: Seq::empty(),
                window_list: Seq::empty(),
                selected_index: 0,
                preview_content: Seq::empty(),
                error_message: None,
                should_quit: false,
            },
        ),
{
}

/// Moving the selection down from a window row and then up brings it back to
/// that row; so does moving up and then down.
pub proof fn moving_down_then_up_restores_selection(a: AppView)
    requires
        is_window_row(a.window_list, a.selected_index),
    ensures
        after_select_prev(after_select_next(a)).selected_index == a.selected_index,
        after_select_next(after_select_prev(a)).selected_index == a.selected_index,
        after_select_prev(after_select_next(a)).window_list == a.window_list,
        after_select_next(after_select_prev(a)).window_list == a.window_list,
{
    down_then_up_returns(a.window_list, a.selected_index);
    up_then_down_returns(a.window_list, a.selected_index);
}

/// A row of the window list is consistent: it holds a window exactly when it is
/// a window row, it always names a session, and a window row names its window's
/// session.
pub open spec fn row_is_consistent(it: ItemView) -> bool {
    &&& (it.kind == ItemKind::Window <==> it.window is Some)
    &&& it.session_name is Some
    &&& (it.kind == ItemKind::Window ==> it.session_name == Some(it.window->0.session_name))
}

/// The number of session-header rows in `list`.
pub open spec fn header_count(list: Seq<ItemView>) -> nat
    decreases list.len(),
{
    if list.len() == 0 {
        0
    } else {
        header_count(list.drop_last()) + if list.last().kind == ItemKind::SessionHeader {
            1nat
        } else {
            0nat
        }
    }
}

proof fn lemma_header_count_add(a: Seq<ItemView>, b: Seq<ItemView>)
    ensures
        header_count(a + b) == header_count(a) + header_count(b),
    decreases b.len(),
{
    if b.len() > 0 {
        lemma_header_count_add(a, b.drop_last());
        assert((a + b).drop_last() =~= a + b.drop_last());
    } else {
        assert(a + b =~= a);
    }
}

proof fn lemma_window_rows_no_header(ws: Seq<WindowView>, now: i64)
    ensures
        header_count(ws.map_values(|w: WindowView| window_entry(w, now))) == 0,
    decreases ws.len(),
{
    if ws.len() > 0 {
        lemma_window_rows_no_header(ws.drop_last(), now);
        assert(ws.map_values(|w: WindowView| window_entry(w, now)).drop_last() =~= ws.drop_last().map_values(
            |w: WindowView| window_entry(w, now),
        ));
    }
}

/// Every row of the window list built from `sessions` is consistent (see
/// [`row_is_consistent`]), and there is one session-header row per session.
pub proof fn window_list_rows_are_consistent(sessions: Seq<SessionView>, now: i64)
    ensures
        forall|i: int|
            0 <= i < window_list_spec(sessions, now).len() ==> row_is_consistent(
                #[trigger] window_list_spec(sessions, now)[i],
            ),
        header_count(window_list_spec(sessions, now)) == sessions.len(),
    decreases sessions.len(),
{
    if sessions.len() > 0 {
        let prev = window_list_spec(sessions.drop_last(), now);
        let s = sessions.last();
        let rows = session_rows(s, now);
        let ws = s.windows.map_values(|w: WindowView| window_entry(w, now));
        window_list_rows_are_consistent(sessions.drop_last(), now);
        lemma_window_rows_no_header(s.windows, now);
        lemma_header_count_add(prev, rows);
        lemma_header_count_add(seq![header_item(s.name)], ws);
        assert(header_count(seq![header_item(s.name)]) == 1) by {
            let one = seq![header_item(s.name)];
            assert(one.drop_last() =~= Seq::<ItemView>::empty());
            assert(one.last() == header_item(s.name));
            assert(header_count(Seq::<ItemView>::empty()) == 0);
        }
        assert forall|i: int| 0 <= i < (prev + rows).len() implies row_is_consistent(
            #[trigger] (prev + rows)[i],
        ) by {
            if i >= prev.len() {
                let j = i - prev.len();
                if j > 0 {
                    assert(rows[j] == ws[j - 1]);
                }
            }
        }
    }
}

/// A listing keeps the selection where it is when that row of the new window
/// list is a window row; when the selection lies past the end of a non-empty list
/// and the last row is a window row, the selection moves to that last row.
pub proof fn listing_keeps_selected_window(a: AppView, ss: Seq<SessionView>, now: i64)
    requires
        a.selected_index >= 0,
    ensures
        ({
            let list = window_list_spec(ss, now);
            let b = after_listing(a, Ok(ss), now);
            &&& (a.selected_index < list.len() && list[a.selected_index].kind == ItemKind::Window)
                ==> b.selected_index == a.selected_index
            &&& (a.selected_index >= list.len() > 0 && list[list.len() - 1].kind
                == ItemKind::Window) ==> b.selected_index == list.len() - 1
        }),
{
}

} // verus!
