use burrito::board::{Connection, Whiteboard};
use burrito::canvas::{CanvasAction, Interaction};

type Frame = (f32, f32, f32, f32);

fn two_nodes() -> Whiteboard<Frame> {
    let mut wb = Whiteboard::new();
    wb.add_node("a".to_string(), (0.0, 0.0, 1.0, 1.0));
    wb.add_node("b".to_string(), (0.0, 0.0, 1.0, 1.0));
    wb.connections.push(Connection { from: 0, to: 1 });
    wb
}

#[test]
fn press_is_ignored_while_dragging_or_panning() {
    let mut wb = two_nodes();
    wb.drag = Some(0);
    assert_eq!(wb.on_press(false, &vec![true, true], &vec![true]), CanvasAction::Ignore);
    wb.drag = None;
    wb.panning = true;
    assert_eq!(wb.on_press(false, &vec![true, true], &vec![true]), CanvasAction::Ignore);
}

#[test]
fn press_in_connection_mode_starts_or_ends_a_connection() {
    let mut wb = two_nodes();
    wb.connection_mode = true;
    assert_eq!(wb.on_press(false, &vec![true, false], &vec![false]), CanvasAction::StartConnection(0));
    wb.connection_source = Some(0);
    assert_eq!(wb.on_press(false, &vec![true, false], &vec![false]), CanvasAction::StartConnection(0));
    assert_eq!(wb.on_press(false, &vec![false, true], &vec![false]), CanvasAction::EndConnection(1));
    assert_eq!(wb.on_press(false, &vec![false, false], &vec![true]), CanvasAction::Capture);
}

#[test]
fn press_picks_handle_then_element_then_connection_then_pan() {
    let mut wb = two_nodes();
    wb.selected = Some(0);
    assert_eq!(wb.on_press(true, &vec![true, true], &vec![true]), CanvasAction::ResizeStart(0));
    assert_eq!(wb.on_press(false, &vec![true, true], &vec![true]), CanvasAction::SelectAndDrag(1));
    assert_eq!(wb.on_press(false, &vec![false, false], &vec![true]), CanvasAction::SelectConnection(0));
    assert_eq!(wb.on_press(false, &vec![false, false], &vec![false]), CanvasAction::PanStart);
    // the handle of a missing element does not count
    wb.selected = Some(7);
    assert_eq!(wb.on_press(true, &vec![false, false], &vec![false]), CanvasAction::PanStart);
}

#[test]
fn cursor_moves_and_releases_follow_the_current_gesture() {
    let mut wb = two_nodes();
    assert_eq!(wb.on_cursor_moved(), CanvasAction::Ignore);
    assert_eq!(wb.on_release(), CanvasAction::Ignore);
    wb.panning = true;
    assert_eq!(wb.on_cursor_moved(), CanvasAction::PanMove);
    assert_eq!(wb.on_release(), CanvasAction::PanEnd);
    wb.drag = Some(1);
    assert_eq!(wb.on_cursor_moved(), CanvasAction::DragMove);
    assert_eq!(wb.on_release(), CanvasAction::DragEnd);
    wb.resize = Some(1);
    assert_eq!(wb.on_cursor_moved(), CanvasAction::ResizeMove(1));
    assert_eq!(wb.on_release(), CanvasAction::ResizeEnd);
    wb.resize = Some(5);
    assert_eq!(wb.on_cursor_moved(), CanvasAction::DragMove);
}

#[test]
fn pointer_shape() {
    let mut wb = two_nodes();
    assert_eq!(wb.mouse_interaction(false, &vec![false, false]), Interaction::Idle);
    assert_eq!(wb.mouse_interaction(false, &vec![false, true]), Interaction::Pointer);
    wb.selected = Some(1);
    assert_eq!(wb.mouse_interaction(true, &vec![false, false]), Interaction::ResizingDiagonallyUp);
}
