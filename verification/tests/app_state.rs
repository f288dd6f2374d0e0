use matoi::app::{build_window_list, App, ItemKind, WindowListItem};
use matoi::display::RowStyle;
use matoi::event::{map_key_event, refresh_due, AppEvent, Effect, Key, KeyPress};
use matoi::tmux::{TmuxSession, TmuxWindow};
use std::time::Instant;

const NOW: i64 = 1_700_000_000;

fn win(session: &str, index: u32, name: &str, last: i64, active: bool) -> TmuxWindow {
    TmuxWindow {
        session_name: session.to_string(),
        window_index: index,
        window_name: name.to_string(),
        pane_current_command: "zsh".to_string(),
        pane_last_activity: last,
        is_active: active,
    }
}

fn sessions() -> Vec<TmuxSession> {
    vec![
        TmuxSession {
            name: "main".to_string(),
            windows: vec![win("main", 0, "editor", NOW - 5, true), win("main", 1, "logs", NOW - 120, false)],
        },
        TmuxSession { name: "empty".to_string(), windows: vec![] },
        TmuxSession { name: "work".to_string(), windows: vec![win("work", 3, "build", NOW - 7200, true)] },
    ]
}

fn loaded() -> (App, Option<String>) {
    let mut app = App::new();
    let t = app.refresh(Ok(sessions()), NOW, Instant::now());
    (app, t)
}

fn key(code: Key) -> KeyPress {
    KeyPress { code, control: false }
}

#[test]
fn header_label() {
    let h = WindowListItem::session_header("main");
    assert_eq!(h.kind, ItemKind::SessionHeader);
    assert_eq!(h.label, "[main]");
    assert_eq!(h.session_name.as_deref(), Some("main"));
    assert!(h.window.is_none());
}

#[test]
fn window_label() {
    let w = win("main", 12, "editor", NOW - 90, true);
    let item = WindowListItem::window_item(&w, NOW);
    assert_eq!(item.kind, ItemKind::Window);
    assert_eq!(item.label, "  ▶ 12: editor (1m ago)");
    assert_eq!(item.session_name.as_deref(), Some("main"));
    assert_eq!(item.window.as_ref().map(|w| w.target()), Some("main:12".to_string()));
    let idle = WindowListItem::window_item(&win("s", 0, "x", NOW, false), NOW);
    assert_eq!(idle.label, "    0: x (0s ago)");
    assert_eq!(item.clone().label, item.label);
}

#[test]
fn list_has_headers_then_windows() {
    let list = build_window_list(&sessions(), NOW);
    let labels: Vec<&str> = list.iter().map(|i| i.label.as_str()).collect();
    assert_eq!(
        labels,
        vec!["[main]", "  ▶ 0: editor (5s ago)", "    1: logs (2m ago)", "[empty]", "[work]", "  ▶ 3: build (2h ago)"]
    );
    assert!(build_window_list(&vec![], NOW).is_empty());
}

#[test]
fn new_app_is_empty() {
    let app = App::new();
    assert!(app.sessions.is_empty());
    assert!(app.window_list.is_empty());
    assert_eq!(app.selected_index, 0);
    assert_eq!(app.preview_content, "");
    assert!(app.error_message.is_none());
    assert!(!app.should_quit);
}

#[test]
fn listing_selects_first_window_past_header() {
    let (app, target) = loaded();
    assert_eq!(app.window_list.len(), 6);
    assert_eq!(app.selected_index, 1);
    assert_eq!(target.as_deref(), Some("main:0"));
    assert!(app.error_message.is_none());
}

#[test]
fn listing_clamps_selection_past_end() {
    let (mut app, _) = loaded();
    app.selected_index = 40;
    let t = app.refresh(Ok(sessions()), NOW, Instant::now());
    assert_eq!(app.selected_index, 5);
    assert_eq!(t.as_deref(), Some("work:3"));
}

#[test]
fn listing_with_no_windows_keeps_header_and_empties_preview() {
    let mut app = App::new();
    app.preview_content = "old".to_string();
    let only_headers = vec![TmuxSession { name: "a".to_string(), windows: vec![] }];
    let t = app.refresh(Ok(only_headers), NOW, Instant::now());
    assert_eq!(t, None);
    assert_eq!(app.selected_index, 0);
    assert_eq!(app.preview_content, "");
    let t = app.refresh(Ok(vec![]), NOW, Instant::now());
    assert_eq!(t, None);
    assert_eq!(app.selected_index, 0);
}

#[test]
fn listing_failure_records_error_and_keeps_list() {
    let (mut app, _) = loaded();
    let t = app.refresh(Err("no server running".to_string()), NOW, Instant::now());
    assert_eq!(app.error_message.as_deref(), Some("Error: no server running"));
    assert_eq!(app.window_list.len(), 6);
    assert_eq!(t.as_deref(), Some("main:0"));
    let t = app.refresh(Ok(sessions()), NOW, Instant::now());
    assert!(app.error_message.is_none());
    assert_eq!(t.as_deref(), Some("main:0"));
}

#[test]
fn refresh_takes_the_time() {
    let mut app = App::new();
    let t = app.refresh(Ok(sessions()), NOW + 3600, Instant::now());
    assert_eq!(t.as_deref(), Some("main:0"));
    assert_eq!(app.window_list.len(), 6);
    assert_eq!(app.window_list[5].label, "  ▶ 3: build (3h ago)");
}

#[test]
fn next_skips_headers_and_wraps() {
    let (mut app, _) = loaded();
    assert_eq!(app.select_next().as_deref(), Some("main:1"));
    assert_eq!(app.selected_index, 2);
    assert_eq!(app.select_next().as_deref(), Some("work:3"));
    assert_eq!(app.selected_index, 5);
    assert_eq!(app.select_next().as_deref(), Some("main:0"));
    assert_eq!(app.selected_index, 1);
}

#[test]
fn prev_skips_headers_and_wraps() {
    let (mut app, _) = loaded();
    assert_eq!(app.select_prev().as_deref(), Some("work:3"));
    assert_eq!(app.selected_index, 5);
    assert_eq!(app.select_prev().as_deref(), Some("main:1"));
    assert_eq!(app.selected_index, 2);
    assert_eq!(app.select_prev().as_deref(), Some("main:0"));
    assert_eq!(app.selected_index, 1);
}

#[test]
fn next_then_prev_comes_back() {
    let (mut app, _) = loaded();
    for start in [1usize, 2, 5] {
        app.selected_index = start;
        app.select_next();
        app.select_prev();
        assert_eq!(app.selected_index, start);
        app.select_prev();
        app.select_next();
        assert_eq!(app.selected_index, start);
    }
}

#[test]
fn moves_without_windows_change_nothing() {
    let mut app = App::new();
    assert_eq!(app.select_next(), None);
    assert_eq!(app.select_prev(), None);
    assert_eq!(app.selected_index, 0);
    app.refresh(Ok(vec![TmuxSession { name: "a".to_string(), windows: vec![] }]), NOW, Instant::now());
    app.preview_content = "kept".to_string();
    assert_eq!(app.select_next(), None);
    assert_eq!(app.select_prev(), None);
    assert_eq!(app.selected_index, 0);
    assert_eq!(app.preview_content, "kept");
}

#[test]
fn single_window_selects_itself() {
    let mut app = App::new();
    app.refresh(
        Ok(vec![TmuxSession { name: "a".to_string(), windows: vec![win("a", 4, "w", NOW, false)] }]),
        NOW,
        Instant::now(),
    );
    assert_eq!(app.selected_index, 1);
    assert_eq!(app.select_next().as_deref(), Some("a:4"));
    assert_eq!(app.select_prev().as_deref(), Some("a:4"));
    assert_eq!(app.selected_index, 1);
}

#[test]
fn focus_and_its_failure() {
    let (mut app, _) = loaded();
    assert_eq!(app.focus_selected().as_deref(), Some("main:0"));
    app.record_focus_failure("can't find window");
    assert_eq!(app.error_message.as_deref(), Some("Focus failed: can't find window"));
    app.selected_index = 0;
    assert_eq!(app.focus_selected(), None);
    app.selected_index = 99;
    assert_eq!(app.focus_selected(), None);
}

#[test]
fn refresh_preview_on_header_empties() {
    let (mut app, _) = loaded();
    app.preview_content = "x".to_string();
    app.selected_index = 3;
    assert_eq!(app.refresh_preview(), None);
    assert_eq!(app.preview_content, "");
    app.preview_content = "x".to_string();
    app.selected_index = 2;
    assert_eq!(app.refresh_preview().as_deref(), Some("main:1"));
    assert_eq!(app.preview_content, "x");
}

#[test]
fn captures_become_preview() {
    let (mut app, _) = loaded();
    app.apply_capture(Some(b"\x1b[1mbold\x1b[0m text\n"));
    assert_eq!(app.preview_content, "bold text\n");
    app.apply_capture(None);
    assert_eq!(app.preview_content, "No preview available");
}

#[test]
fn key_bindings() {
    assert_eq!(map_key_event(key(Key::Char('j'))), Some(AppEvent::SelectNext));
    assert_eq!(map_key_event(key(Key::Down)), Some(AppEvent::SelectNext));
    assert_eq!(map_key_event(key(Key::Char('k'))), Some(AppEvent::SelectPrev));
    assert_eq!(map_key_event(key(Key::Up)), Some(AppEvent::SelectPrev));
    assert_eq!(map_key_event(key(Key::Char('f'))), Some(AppEvent::Focus));
    assert_eq!(map_key_event(key(Key::Enter)), Some(AppEvent::Focus));
    assert_eq!(map_key_event(key(Key::Char('r'))), Some(AppEvent::Refresh));
    assert_eq!(map_key_event(key(Key::Char('q'))), Some(AppEvent::Quit));
    assert_eq!(map_key_event(KeyPress { code: Key::Char('c'), control: true }), Some(AppEvent::Quit));
    assert_eq!(map_key_event(key(Key::Char('c'))), None);
    assert_eq!(map_key_event(KeyPress { code: Key::Char('j'), control: true }), Some(AppEvent::SelectNext));
    assert_eq!(map_key_event(key(Key::Char('x'))), None);
    assert_eq!(map_key_event(key(Key::Other)), None);
}

#[test]
fn events_drive_the_state() {
    let (mut app, _) = loaded();
    assert!(matches!(app.handle_event(AppEvent::SelectNext), Effect::CapturePane(t) if t == "main:1"));
    assert!(matches!(app.handle_event(AppEvent::SelectPrev), Effect::CapturePane(t) if t == "main:0"));
    assert!(matches!(app.handle_event(AppEvent::Focus), Effect::SwitchClient(t) if t == "main:0"));
    assert!(matches!(app.handle_event(AppEvent::Refresh), Effect::ListSessions));
    assert!(!app.should_quit);
    assert!(matches!(app.handle_event(AppEvent::Quit), Effect::Nothing));
    assert!(app.should_quit);
    let mut empty = App::new();
    assert!(matches!(empty.handle_event(AppEvent::SelectNext), Effect::Nothing));
    assert!(matches!(empty.handle_event(AppEvent::Focus), Effect::Nothing));
}

#[test]
fn row_styles() {
    let (app, _) = loaded();
    assert_eq!(app.row_style(0), RowStyle::Header);
    assert_eq!(app.row_style(1), RowStyle::Selected);
    assert_eq!(app.row_style(2), RowStyle::Plain);
    assert_eq!(app.row_style(3), RowStyle::Header);
}

#[test]
fn preview_text_hint() {
    let mut app = App::new();
    assert_eq!(app.preview_text(), "Select a window to preview");
    app.preview_content = "content".to_string();
    assert_eq!(app.preview_text(), "content");
}

#[test]
fn status_line() {
    let mut app = App::new();
    assert!(!app.status_is_error());
    assert_eq!(app.status_text("12:34:56"), "Updated: 12:34:56");
    app.error_message = Some("Error: boom".to_string());
    assert!(app.status_is_error());
    assert_eq!(app.status_text("01:02:03"), "Updated: 01:02:03 | Error: boom");
}

#[test]
fn refresh_timer() {
    assert!(!refresh_due(0));
    assert!(!refresh_due(4999));
    assert!(refresh_due(5000));
    assert!(refresh_due(60_000));
}

#[test]
fn list_rows_are_consistent() {
    let list = build_window_list(&sessions(), NOW);
    let headers = list.iter().filter(|i| i.kind == ItemKind::SessionHeader).count();
    assert_eq!(headers, sessions().len());
    for item in &list {
        assert_eq!(item.kind == ItemKind::Window, item.window.is_some());
        assert!(item.session_name.is_some());
        if let Some(w) = &item.window {
            assert_eq!(item.session_name.as_deref(), Some(w.session_name.as_str()));
        }
    }
}

#[test]
fn failed_refresh_keeps_update_time() {
    let (mut app, _) = loaded();
    let before = app.last_updated;
    app.refresh(Err("gone".to_string()), NOW, Instant::now());
    assert_eq!(app.last_updated, before);
    assert_eq!(app.error_message.as_deref(), Some("Error: gone"));
}

#[test]
fn session_clone_keeps_windows() {
    let s = sessions();
    let c = s[0].clone();
    assert_eq!(c.name, "main");
    assert_eq!(c.windows.len(), 2);
    assert_eq!(c.windows[1].window_name, "logs");
}
