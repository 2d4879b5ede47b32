use codewire::terminal::DetachDetector;

fn feed_all(d: &mut DetachDetector, input: &[u8]) -> (bool, Vec<u8>) {
    d.feed_buf(&input.to_vec())
}

// --- Legacy detach ---

#[test]
fn detach_sequence() {
    let mut d = DetachDetector::new();
    assert_eq!(d.feed(0x02), (false, vec![]));
    assert_eq!(d.feed(b'd'), (true, vec![]));
}

#[test]
fn not_detach_forwards_prefix() {
    let mut d = DetachDetector::new();
    assert_eq!(d.feed(0x02), (false, vec![]));
    assert_eq!(d.feed(b'x'), (false, vec![0x02, b'x']));
}

#[test]
fn regular_bytes_pass_through() {
    let mut d = DetachDetector::new();
    assert_eq!(d.feed(b'a'), (false, vec![b'a']));
    assert_eq!(d.feed(b'b'), (false, vec![b'b']));
}

#[test]
fn feed_buf_detach() {
    let mut d = DetachDetector::new();
    let (detach, fwd) = feed_all(&mut d, b"hello\x02d");
    assert!(detach);
    assert_eq!(fwd, b"hello");
}

// --- Escape sequences interleaved with detach ---

#[test]
fn detach_with_interleaved_cursor_report() {
    // Ctrl+B, then cursor position report \x1b[24;80R, then 'd'
    let mut d = DetachDetector::new();
    let (detach, fwd) = feed_all(&mut d, b"\x02\x1b[24;80Rd");
    assert!(detach, "should detect detach through cursor report");
    // The escape sequence should be forwarded
    assert_eq!(fwd, b"\x1b[24;80R");
}

#[test]
fn detach_with_focus_event() {
    // Ctrl+B, then focus-in \x1b[I, then 'd'
    let mut d = DetachDetector::new();
    let (detach, fwd) = feed_all(&mut d, b"\x02\x1b[Id");
    assert!(detach, "should detect detach through focus event");
    assert_eq!(fwd, b"\x1b[I");
}

#[test]
fn detach_with_focus_out_event() {
    // Ctrl+B, then focus-out \x1b[O, then 'd'
    let mut d = DetachDetector::new();
    let (detach, fwd) = feed_all(&mut d, b"\x02\x1b[Od");
    assert!(detach, "should detect detach through focus-out event");
    assert_eq!(fwd, b"\x1b[O");
}

#[test]
fn detach_with_multiple_escape_sequences() {
    // Ctrl+B, focus-in, cursor report, then 'd'
    let mut d = DetachDetector::new();
    let (detach, fwd) = feed_all(&mut d, b"\x02\x1b[I\x1b[24;80Rd");
    assert!(detach, "should detect detach through multiple escapes");
    assert_eq!(fwd, b"\x1b[I\x1b[24;80R");
}

#[test]
fn detach_with_mouse_report() {
    // Ctrl+B, then SGR mouse report \x1b[<0;10;20M, then 'd'
    let mut d = DetachDetector::new();
    let (detach, fwd) = feed_all(&mut d, b"\x02\x1b[<0;10;20Md");
    assert!(detach, "should detect detach through mouse report");
    assert_eq!(fwd, b"\x1b[<0;10;20M");
}

// --- Kitty keyboard protocol ---
//
// Ctrl+B = \x1b[98;5u  (codepoint 98 = 'b', modifier 5 = 1 + Ctrl)
// 'd'    = \x1b[100;1u (codepoint 100, modifier 1 = no modifiers)
//          or \x1b[100u (modifier omitted = no modifiers)
//          or raw 0x64 (when "report all keys" is not set)

#[test]
fn detach_kitty_ctrl_b_raw_d() {
    // Kitty Ctrl+B followed by raw 'd'
    let mut d = DetachDetector::new();
    let (detach, fwd) = feed_all(&mut d, b"\x1b[98;5ud");
    assert!(detach, "should detect detach with Kitty Ctrl+B + raw d");
    assert!(fwd.is_empty());
}

#[test]
fn detach_kitty_ctrl_b_kitty_d() {
    // Both Ctrl+B and 'd' fully Kitty-encoded
    let mut d = DetachDetector::new();
    let (detach, fwd) = feed_all(&mut d, b"\x1b[98;5u\x1b[100;1u");
    assert!(detach, "should detect detach with fully Kitty-encoded sequence");
    assert!(fwd.is_empty());
}

#[test]
fn detach_kitty_ctrl_b_kitty_d_no_modifier() {
    // Kitty 'd' without explicit modifier: \x1b[100u
    let mut d = DetachDetector::new();
    let (detach, fwd) = feed_all(&mut d, b"\x1b[98;5u\x1b[100u");
    assert!(detach, "should detect detach with Kitty d (no modifier)");
    assert!(fwd.is_empty());
}

#[test]
fn detach_legacy_ctrl_b_kitty_d() {
    // Legacy Ctrl+B (0x02) but Kitty 'd' (\x1b[100;1u)
    let mut d = DetachDetector::new();
    let (detach, fwd) = feed_all(&mut d, b"\x02\x1b[100;1u");
    assert!(detach, "should detect detach with legacy prefix + Kitty d");
    assert!(fwd.is_empty());
}

#[test]
fn kitty_ctrl_b_with_interleaved_escape() {
    // Kitty Ctrl+B, then a focus event, then raw 'd'
    let mut d = DetachDetector::new();
    let (detach, fwd) = feed_all(&mut d, b"\x1b[98;5u\x1b[Id");
    assert!(detach, "should detach with Kitty prefix + escape + d");
    assert_eq!(fwd, b"\x1b[I");
}

#[test]
fn kitty_ctrl_b_focus_then_kitty_d() {
    // Full Kitty mode: Ctrl+B, focus event, then Kitty 'd'
    let mut d = DetachDetector::new();
    let (detach, fwd) = feed_all(&mut d, b"\x1b[98;5u\x1b[I\x1b[100;1u");
    assert!(detach, "should detach with Kitty prefix + focus + Kitty d");
    assert_eq!(fwd, b"\x1b[I");
}

#[test]
fn kitty_non_ctrl_b_passes_through() {
    // \x1b[97;1u is Kitty encoding for 'a' (codepoint=97, modifier=1)
    let mut d = DetachDetector::new();
    let (detach, fwd) = feed_all(&mut d, b"\x1b[97;1u");
    assert!(!detach, "should not detach on non-Ctrl+B Kitty sequence");
    assert_eq!(fwd, b"\x1b[97;1u");
}

#[test]
fn kitty_ctrl_b_then_kitty_non_d_cancels() {
    // Kitty Ctrl+B then Kitty 'x' (\x1b[120;1u) — should cancel
    let mut d = DetachDetector::new();
    let (detach, fwd) = feed_all(&mut d, b"\x1b[98;5u\x1b[120;1u");
    assert!(!detach, "should cancel on Kitty non-d key after prefix");
    assert_eq!(fwd, b"\x02\x1b[120;1u");
}

#[test]
fn kitty_ctrl_d_not_detach() {
    // Kitty Ctrl+B then Kitty Ctrl+d (\x1b[100;5u) — modifier 5 means Ctrl
    let mut d = DetachDetector::new();
    let (detach, fwd) = feed_all(&mut d, b"\x1b[98;5u\x1b[100;5u");
    assert!(!detach, "Ctrl+d (modifier 5) should not trigger detach");
    assert_eq!(fwd, b"\x02\x1b[100;5u");
}

#[test]
fn escape_in_normal_state_passes_through() {
    let mut d = DetachDetector::new();
    let (detach, fwd) = feed_all(&mut d, b"\x1b[6n");
    assert!(!detach);
    assert_eq!(fwd, b"\x1b[6n");
}

#[test]
fn two_char_escape_in_saw_prefix() {
    let mut d = DetachDetector::new();
    let (detach, fwd) = feed_all(&mut d, b"\x02\x1bNd");
    assert!(detach, "should detach after 2-char escape in SawPrefix");
    assert_eq!(fwd, b"\x1bN");
}

#[test]
fn normal_text_between_detach_attempts() {
    let mut d = DetachDetector::new();
    let (detach, fwd) = feed_all(&mut d, b"abc\x02d");
    assert!(detach);
    assert_eq!(fwd, b"abc");
}

#[test]
fn kitty_ctrl_b_cancel_raw() {
    // Kitty Ctrl+B followed by raw non-'d' cancels
    let mut d = DetachDetector::new();
    let (detach, fwd) = feed_all(&mut d, b"\x1b[98;5ux");
    assert!(!detach);
    assert_eq!(fwd, b"\x02x");
}
