use matoi::tmux::{
    pane_preview, parse_session_names, parse_windows, session_names_in, windows_in, ActivityStatus,
    TmuxWindow,
};
use std::time::Duration;

fn win(session: &str, index: u32, name: &str, last: i64, active: bool) -> TmuxWindow {
    TmuxWindow {
        session_name: session.to_string(),
        window_index: index,
        window_name: name.to_string(),
        pane_current_command: "zsh".to_string(),
        pane_last_activity: last,
        is_active: active,
    }
}

#[test]
fn target_is_session_colon_index() {
    assert_eq!(win("work", 3, "editor", 0, false).target(), "work:3");
    assert_eq!(win("", 0, "", 0, false).target(), ":0");
}

#[test]
fn elapsed_display_units() {
    let w = win("s", 1, "w", 1000, false);
    assert_eq!(w.elapsed_display(1000), "0s ago");
    assert_eq!(w.elapsed_display(1059), "59s ago");
    assert_eq!(w.elapsed_display(1060), "1m ago");
    assert_eq!(w.elapsed_display(1000 + 3599), "59m ago");
    assert_eq!(w.elapsed_display(1000 + 3600), "1h ago");
    assert_eq!(w.elapsed_display(1000 + 7200 * 12 + 5), "24h ago");
    // Activity in the future counts as no time at all.
    assert_eq!(w.elapsed_display(500), "0s ago");
}

#[test]
fn elapsed_display_extreme_times() {
    let w = win("s", 1, "w", i64::MIN, false);
    let hours = ((i64::MAX as i128 - i64::MIN as i128) / 3600) as u64;
    assert_eq!(w.elapsed_display(i64::MAX), format!("{}h ago", hours));
}

#[test]
fn activity_status_thresholds() {
    let w = win("s", 1, "w", 100, false);
    assert!(matches!(w.activity_status(110), ActivityStatus::Active));
    assert!(matches!(w.activity_status(111), ActivityStatus::RecentlyActive));
    assert!(matches!(w.activity_status(160), ActivityStatus::RecentlyActive));
    match w.activity_status(161) {
        ActivityStatus::Idle(d) => assert_eq!(d, Duration::from_secs(61)),
        other => panic!("expected Idle, got {:?}", other),
    }
    assert!(matches!(w.activity_status(0), ActivityStatus::Active));
}

#[test]
fn session_names_skip_empty_lines() {
    let names = session_names_in("main\n\nwork\r\nplay\n");
    assert_eq!(names, vec!["main".to_string(), "work".to_string(), "play".to_string()]);
    assert!(session_names_in("").is_empty());
}

#[test]
fn session_names_from_bytes() {
    let names = parse_session_names(b"a\nb\xffc\n");
    assert_eq!(names, vec!["a".to_string(), "b\u{fffd}c".to_string()]);
}

#[test]
fn windows_from_listing() {
    let out = "0\teditor\tnvim\t1700000000\t1\n1\tshell\tzsh\tnotanumber\t0\n\nbad line\nx\tname\twith\ttabs\t1\textra\n";
    let ws = windows_in("work", out);
    assert_eq!(ws.len(), 3);
    assert_eq!(ws[0].session_name, "work");
    assert_eq!(ws[0].window_index, 0);
    assert_eq!(ws[0].window_name, "editor");
    assert_eq!(ws[0].pane_current_command, "nvim");
    assert_eq!(ws[0].pane_last_activity, 1700000000);
    assert!(ws[0].is_active);
    assert_eq!(ws[1].window_index, 1);
    assert_eq!(ws[1].pane_last_activity, 0);
    assert!(!ws[1].is_active);
    // An index that does not parse counts as 0; the fifth field keeps later tabs.
    assert_eq!(ws[2].window_index, 0);
    assert_eq!(ws[2].window_name, "name");
    assert!(!ws[2].is_active);
}

#[test]
fn windows_from_bytes() {
    let ws = parse_windows("s", b"2\tw\tcmd\t-5\t1");
    assert_eq!(ws.len(), 1);
    assert_eq!(ws[0].window_index, 2);
    assert_eq!(ws[0].pane_last_activity, -5);
    assert!(ws[0].is_active);
}

#[test]
fn pane_preview_decodes_and_strips() {
    assert_eq!(pane_preview(b"\x1b[32mok\x1b[0m\n"), "ok\n");
    assert_eq!(pane_preview(b"a\xffb"), "a\u{fffd}b");
}

#[test]
fn window_clone_keeps_fields() {
    let w = win("s", 9, "n", 77, true);
    let c = w.clone();
    assert_eq!(c.session_name, "s");
    assert_eq!(c.window_index, 9);
    assert_eq!(c.window_name, "n");
    assert_eq!(c.pane_current_command, "zsh");
    assert_eq!(c.pane_last_activity, 77);
    assert!(c.is_active);
}

#[test]
fn activity_status_clone() {
    let w = win("s", 1, "w", 0, false);
    match w.activity_status(100).clone() {
        ActivityStatus::Idle(d) => assert_eq!(d, Duration::from_secs(100)),
        other => panic!("expected Idle, got {:?}", other),
    }
    assert!(matches!(ActivityStatus::Active.clone(), ActivityStatus::Active));
}
