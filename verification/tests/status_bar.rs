use codewire::status_bar::{format_duration, StatusBar};

#[test]
fn pty_size_reduces_rows() {
    let bar = StatusBar::new(1, 80, 24);
    assert_eq!(bar.pty_size(), (80, 23));
}

#[test]
fn pty_size_full_when_disabled() {
    let bar = StatusBar::new(1, 80, 4);
    assert!(!bar.enabled);
    assert_eq!(bar.pty_size(), (80, 4));
}

#[test]
fn setup_draws_bar_without_scroll_region() {
    let bar = StatusBar::new(1, 80, 24);
    let out = String::from_utf8(bar.setup()).unwrap();
    // No alternate screen or scroll region
    assert!(!out.contains("\x1b[?1049h"));
    assert!(!out.contains("\x1b[1;23r"));
    // Draws the bar
    assert!(out.contains("\x1b[7m")); // reverse video
    assert!(out.contains("session 1"));
}

#[test]
fn teardown_exits_alt_screen_and_clears_bar() {
    let bar = StatusBar::new(1, 80, 24);
    let out = String::from_utf8(bar.teardown()).unwrap();
    // Exits alternate screen (child process may have entered it)
    assert!(out.contains("\x1b[?1049l"));
    // Shows cursor
    assert!(out.contains("\x1b[?25h"));
    // Pops Kitty keyboard mode
    assert!(out.contains("\x1b[<u"));
    // Disables focus events, mouse tracking, SGR mouse
    assert!(out.contains("\x1b[?1004l"));
    assert!(out.contains("\x1b[?1000l"));
    assert!(out.contains("\x1b[?1006l"));
    // Clears the last row
    assert!(out.contains("\x1b[24;1H")); // move to last row
    assert!(out.contains("\x1b[2K")); // clear line
}

#[test]
fn draw_contains_session_info() {
    let bar = StatusBar::new(42, 80, 24);
    let out = String::from_utf8(bar.draw()).unwrap();
    assert!(out.contains("session 42"));
    assert!(out.contains("running"));
    assert!(out.contains("Ctrl+B d"));
    assert!(out.contains("\x1b[7m")); // reverse video
}

#[test]
fn disabled_produces_empty_setup_and_draw() {
    let bar = StatusBar::new(1, 80, 3);
    assert!(bar.setup().is_empty());
    assert!(bar.draw().is_empty());
}

#[test]
fn disabled_teardown_still_resets_modes() {
    let bar = StatusBar::new(1, 80, 3);
    assert!(!bar.enabled);
    let out = String::from_utf8(bar.teardown()).unwrap();
    // Mode resets are always emitted regardless of bar state
    assert!(out.contains("\x1b[?25h"), "should show cursor");
    assert!(out.contains("\x1b[<u"), "should pop Kitty keyboard");
    assert!(out.contains("\x1b[?1004l"), "should disable focus events");
    assert!(out.contains("\x1b[?1000l"), "should disable mouse tracking");
    assert!(out.contains("\x1b[?1006l"), "should disable SGR mouse");
    // But should NOT contain bar-specific cleanup
    assert!(!out.contains("\x1b[2K"), "should not clear bar line when disabled");
}

#[test]
fn format_duration_display() {
    assert_eq!(format_duration(0), "0s");
    assert_eq!(format_duration(45), "45s");
    assert_eq!(format_duration(60), "1m");
    assert_eq!(format_duration(300), "5m");
    assert_eq!(format_duration(3661), "1h1m");
}

#[test]
fn render_pads_to_width() {
    let bar = StatusBar::new(7, 60, 24);
    let out = String::from_utf8(bar.render(5)).unwrap();
    assert!(out.contains(" [cw] session 7 | running | 5s | Ctrl+B d"));
    // Padded to exactly the row width inside the reverse-video span.
    let start = out.find("\x1b[7m").unwrap() + 4;
    let end = out.find("\x1b[0m").unwrap();
    assert_eq!(end - start, 60);
}

#[test]
fn render_truncates_on_narrow_terminal() {
    let bar = StatusBar::new(1, 10, 24);
    let out = String::from_utf8(bar.render(0)).unwrap();
    let start = out.find("\x1b[7m").unwrap() + 4;
    let end = out.find("\x1b[0m").unwrap();
    assert_eq!(&out[start..end], " [cw] sess");
}

#[test]
fn resize_disables_below_five_rows() {
    let mut bar = StatusBar::new(1, 80, 24);
    let out = bar.resize(80, 4);
    assert!(out.is_empty());
    assert!(!bar.enabled);
    assert_eq!(bar.pty_size(), (80, 4));
}
