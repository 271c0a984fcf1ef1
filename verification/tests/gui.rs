use burrito::gui::{GuiContext, MAX_PENDING_CHARS};
use burrito::text::wrap_lines;

#[test]
fn new_context_is_idle() {
    let g = GuiContext::new();
    assert!(!g.is_active());
    assert!(!g.is_focused());
    assert!(!g.item_wants_mouse());
    assert_eq!(g.id_gen, 1);
}

#[test]
fn mouse_press_records_transitions() {
    let mut g = GuiContext::new();
    g.mouse_press(true);
    assert!(g.mouse_pressed && g.mouse_down && !g.mouse_released);
    g.mouse_press(true);
    assert!(g.mouse_pressed);
    g.mouse_press(false);
    assert!(g.mouse_released && !g.mouse_down);
    g.end_frame();
    assert!(!g.mouse_pressed && !g.mouse_released);
}

#[test]
fn button_clicks_on_release_over_it() {
    let mut g = GuiContext::new();
    g.begin_frame();
    g.mouse_press(true);
    let (id, clicked) = g.button(true);
    assert_eq!(id, 1);
    assert!(!clicked);
    assert_eq!(g.active, 1);
    assert_eq!(g.hot, 1);
    g.end_frame();
    g.begin_frame();
    g.mouse_press(false);
    let (id, clicked) = g.button(true);
    assert_eq!(id, 1);
    assert!(clicked);
    assert!(!g.is_active());
}

#[test]
fn button_release_elsewhere_does_not_click() {
    let mut g = GuiContext::new();
    g.begin_frame();
    g.mouse_press(true);
    g.button(true);
    g.end_frame();
    g.begin_frame();
    g.mouse_press(false);
    let (_, clicked) = g.button(false);
    assert!(!clicked);
    assert_eq!(g.active, 0);
}

#[test]
fn widgets_are_numbered_in_layout_order() {
    let mut g = GuiContext::new();
    g.begin_frame();
    let (a, _) = g.button(false);
    let mut checked = false;
    let b = g.checkbox(false, &mut checked);
    let (c, _) = g.slider(false);
    assert_eq!((a, b, c), (1, 2, 3));
    g.begin_frame();
    let (a2, _) = g.button(false);
    assert_eq!(a2, 1);
}

#[test]
fn checkbox_flips_on_press_over_it() {
    let mut g = GuiContext::new();
    let mut checked = false;
    g.begin_frame();
    g.mouse_press(true);
    g.checkbox(true, &mut checked);
    assert!(checked);
    g.end_frame();
    g.begin_frame();
    g.checkbox(true, &mut checked);
    assert!(checked);
    g.mouse_press(false);
    g.end_frame();
    g.begin_frame();
    g.checkbox(true, &mut checked);
    assert!(checked);
}

#[test]
fn slider_tracks_while_held() {
    let mut g = GuiContext::new();
    g.begin_frame();
    g.mouse_press(true);
    let (_, tracking) = g.slider(true);
    assert!(tracking);
    g.end_frame();
    g.begin_frame();
    let (_, tracking) = g.slider(false);
    assert!(tracking);
    g.mouse_press(false);
    g.end_frame();
    g.begin_frame();
    let (_, tracking) = g.slider(false);
    assert!(!tracking);
}

#[test]
fn text_area_edits_while_focused() {
    let mut g = GuiContext::new();
    let mut text = String::from("ab");
    g.begin_frame();
    g.mouse_press(true);
    let r = g.text_area(true, &mut text);
    assert_eq!(r.id, 1);
    assert!(g.is_focused());
    assert!(!r.modified);
    g.end_frame();
    g.key_event(Some('c'), false, false, false);
    g.key_event(Some('d'), true, false, true);
    g.begin_frame();
    let r = g.text_area(false, &mut text);
    assert!(r.modified);
    assert_eq!(text, "abc\n");
    assert!(g.input_chars.is_empty());
    assert!(!g.key_backspace && !g.key_enter);
}

#[test]
fn backspace_on_empty_text_keeps_it_empty() {
    let mut g = GuiContext::new();
    let mut text = String::new();
    g.focused = 1;
    g.was_focused = 1;
    g.key_event(None, true, true, false);
    g.begin_frame();
    let r = g.text_area(false, &mut text);
    assert!(r.modified);
    assert_eq!(text, "");
    assert!(!g.key_delete);
}

#[test]
fn typing_without_focus_is_discarded() {
    let mut g = GuiContext::new();
    let mut text = String::from("x");
    g.key_event(Some('y'), true, false, false);
    g.begin_frame();
    assert!(g.input_chars.is_empty());
    assert!(!g.key_backspace);
    let r = g.text_area(false, &mut text);
    assert!(!r.modified);
    assert_eq!(text, "x");
}

#[test]
fn pending_characters_are_capped() {
    let mut g = GuiContext::new();
    for _ in 0..(MAX_PENDING_CHARS + 10) {
        g.key_event(Some('z'), false, false, false);
    }
    assert_eq!(g.input_chars.len(), 1024);
}

#[test]
fn wrap_lines_cuts_long_lines() {
    assert_eq!(wrap_lines("abcdefg", 3), vec!["abc", "def", "g"]);
    assert_eq!(wrap_lines("abcdef", 3), vec!["abc", "def"]);
    assert_eq!(wrap_lines("ab\ncd", 3), vec!["ab", "cd"]);
}

#[test]
fn wrap_lines_follows_line_endings() {
    assert_eq!(wrap_lines("", 5), vec![""]);
    assert_eq!(wrap_lines("a\n", 5), vec!["a", ""]);
    assert_eq!(wrap_lines("\n", 5), vec!["", ""]);
    assert_eq!(wrap_lines("a\r\nb", 5), vec!["a", "b"]);
    assert_eq!(wrap_lines("a\n\nb", 5), vec!["a", "", "b"]);
    assert_eq!(wrap_lines("a\r", 5), vec!["a\r"]);
}

#[test]
fn wrap_lines_counts_characters_not_bytes() {
    assert_eq!(wrap_lines("ééé", 2), vec!["éé", "é"]);
}
