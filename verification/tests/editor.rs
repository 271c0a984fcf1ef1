use burrito::board::{Connection, Item, Whiteboard};
use burrito::editor::{update, App, Effect, Message, Phase};

type Frame = (f32, f32, f32, f32);

fn board() -> Whiteboard<Frame> {
    Whiteboard::new()
}

fn group_children(wb: &Whiteboard<Frame>, id: u64) -> Vec<u64> {
    match wb.elements.get(&id) {
        Some(Item::Group(g)) => g.children.clone(),
        _ => panic!("not a group"),
    }
}

#[test]
fn new_node_selects_it_and_opens_the_editor() {
    let mut wb = board();
    wb.connection_mode = true;
    wb.connection_source = Some(3);
    let eff = wb.editor_update(Message::NewNode((100.0, 100.0, 160.0, 120.0)));
    assert!(matches!(eff, Effect::OpenEditor));
    assert_eq!(wb.selected, Some(0));
    assert_eq!(wb.edit_content, Some("New Node".to_string()));
    assert!(!wb.connection_mode);
    assert_eq!(wb.connection_source, None);
    match wb.elements.get(&0) {
        Some(Item::Node(n)) => assert_eq!(n.text, "New Node"),
        _ => panic!("expected a node"),
    }
}

#[test]
fn new_group_selects_it_and_keeps_the_editor() {
    let mut wb = board();
    wb.edit_content = Some("kept".to_string());
    let eff = wb.editor_update(Message::NewGroup((80.0, 80.0, 300.0, 200.0)));
    assert!(matches!(eff, Effect::Nothing));
    assert_eq!(wb.selected, Some(0));
    assert_eq!(wb.edit_content, Some("kept".to_string()));
    assert!(group_children(&wb, 0).is_empty());
}

#[test]
fn delete_selected_prefers_the_selected_connection() {
    let mut wb = board();
    let a = wb.add_node("a".to_string(), (0.0, 0.0, 1.0, 1.0));
    let b = wb.add_node("b".to_string(), (0.0, 0.0, 1.0, 1.0));
    wb.connections.push(Connection { from: a, to: b });
    wb.connections.push(Connection { from: b, to: a });
    wb.selected = Some(a);
    wb.selected_connection = Some(0);
    wb.editor_update(Message::DeleteSelected);
    assert_eq!(wb.connections, vec![Connection { from: b, to: a }]);
    assert_eq!(wb.selected_connection, None);
    assert!(wb.elements.contains_key(&a));
    wb.editor_update(Message::DeleteSelected);
    assert!(!wb.elements.contains_key(&a));
    assert!(wb.connections.is_empty());
    assert_eq!(wb.selected, None);
}

#[test]
fn select_and_drag_loads_node_text() {
    let mut wb = board();
    let a = wb.add_node("abc".to_string(), (0.0, 0.0, 1.0, 1.0));
    let g = wb.add_group((0.0, 0.0, 1.0, 1.0));
    wb.selected_connection = Some(0);
    let eff = wb.editor_update(Message::SelectAndDrag(a));
    assert!(matches!(eff, Effect::OpenEditor));
    assert_eq!(wb.edit_content, Some("abc".to_string()));
    assert_eq!(wb.drag, Some(a));
    assert_eq!(wb.selected_connection, None);
    let eff = wb.editor_update(Message::SelectAndDrag(g));
    assert!(matches!(eff, Effect::Nothing));
    assert_eq!(wb.edit_content, None);
    assert_eq!(wb.selected, Some(g));
}

#[test]
fn drag_move_lists_what_moves() {
    let mut wb = board();
    let g = wb.add_group((0.0, 0.0, 1.0, 1.0));
    let a = wb.add_node("a".to_string(), (0.0, 0.0, 1.0, 1.0));
    wb.add_child_to_group(g, a);
    assert!(matches!(wb.editor_update(Message::DragMove), Effect::Nothing));
    wb.editor_update(Message::SelectAndDrag(g));
    match wb.editor_update(Message::DragMove) {
        Effect::Move { root, targets } => {
            assert_eq!(root, g);
            assert_eq!(targets, vec![g, a]);
        }
        _ => panic!("expected a move"),
    }
}

#[test]
fn drag_end_moves_the_element_into_the_first_containing_group() {
    let mut wb = board();
    let g1 = wb.add_group((0.0, 0.0, 1.0, 1.0));
    let g2 = wb.add_group((0.0, 0.0, 1.0, 1.0));
    let a = wb.add_node("a".to_string(), (0.0, 0.0, 1.0, 1.0));
    wb.add_child_to_group(g1, a);
    wb.editor_update(Message::SelectAndDrag(a));
    // the centre of `a` is inside g2 only
    wb.editor_update(Message::DragEnd(vec![false, true, false]));
    assert_eq!(group_children(&wb, g1), Vec::<u64>::new());
    assert_eq!(group_children(&wb, g2), vec![a]);
    assert_eq!(wb.drag, None);
}

#[test]
fn drag_end_never_nests_two_groups_in_each_other() {
    let mut wb = board();
    let g = wb.add_group((0.0, 0.0, 1.0, 1.0));
    let h = wb.add_group((0.0, 0.0, 1.0, 1.0));
    wb.add_child_to_group(g, h);
    wb.editor_update(Message::SelectAndDrag(g));
    // g is dropped inside h (and inside itself, which does not count)
    wb.editor_update(Message::DragEnd(vec![true, true]));
    assert_eq!(group_children(&wb, h), vec![g]);
    assert_eq!(group_children(&wb, g), Vec::<u64>::new());
}

#[test]
fn drag_end_outside_every_group_leaves_it_ungrouped() {
    let mut wb = board();
    let g = wb.add_group((0.0, 0.0, 1.0, 1.0));
    let a = wb.add_node("a".to_string(), (0.0, 0.0, 1.0, 1.0));
    wb.add_child_to_group(g, a);
    wb.editor_update(Message::SelectAndDrag(a));
    wb.editor_update(Message::DragEnd(vec![false, false]));
    assert!(group_children(&wb, g).is_empty());
}

#[test]
fn edit_node_text_needs_an_open_editor() {
    let mut wb = board();
    let a = wb.add_node("a".to_string(), (0.0, 0.0, 1.0, 1.0));
    wb.editor_update(Message::EditNodeText(a, "ignored".to_string()));
    match wb.elements.get(&a) {
        Some(Item::Node(n)) => assert_eq!(n.text, "a"),
        _ => panic!(),
    }
    wb.editor_update(Message::SelectAndDrag(a));
    wb.editor_update(Message::EditNodeText(a, "typed".to_string()));
    match wb.elements.get(&a) {
        Some(Item::Node(n)) => assert_eq!(n.text, "typed"),
        _ => panic!(),
    }
    assert_eq!(wb.edit_content, Some("typed".to_string()));
}

#[test]
fn connections_chain_from_the_last_target() {
    let mut wb = board();
    let a = wb.add_node("a".to_string(), (0.0, 0.0, 1.0, 1.0));
    let b = wb.add_node("b".to_string(), (0.0, 0.0, 1.0, 1.0));
    let c = wb.add_node("c".to_string(), (0.0, 0.0, 1.0, 1.0));
    wb.editor_update(Message::ToggleConnectionMode);
    assert!(wb.connection_mode);
    wb.editor_update(Message::StartConnection(a));
    assert_eq!(wb.connection_source, Some(a));
    wb.editor_update(Message::EndConnection(b));
    wb.editor_update(Message::EndConnection(c));
    // ending on the source itself adds nothing
    wb.editor_update(Message::EndConnection(c));
    assert_eq!(wb.connections, vec![Connection { from: a, to: b }, Connection { from: b, to: c }]);
    // starting again on the source cancels it
    wb.editor_update(Message::StartConnection(c));
    assert_eq!(wb.connection_source, None);
    wb.editor_update(Message::EndConnection(a));
    assert_eq!(wb.connections.len(), 2);
    wb.editor_update(Message::ToggleConnectionMode);
    assert!(!wb.connection_mode);
}

#[test]
fn pan_and_resize_states() {
    let mut wb = board();
    let a = wb.add_node("a".to_string(), (0.0, 0.0, 1.0, 1.0));
    assert!(matches!(wb.editor_update(Message::PanMove), Effect::Nothing));
    wb.selected_connection = Some(1);
    wb.editor_update(Message::PanStart);
    assert!(wb.panning);
    assert_eq!(wb.selected_connection, None);
    assert!(matches!(wb.editor_update(Message::PanMove), Effect::Pan));
    wb.editor_update(Message::PanEnd);
    assert!(!wb.panning);
    wb.editor_update(Message::ResizeStart(a));
    assert!(matches!(wb.editor_update(Message::ResizeMove), Effect::Resize(x) if x == a));
    wb.editor_update(Message::ResizeEnd);
    assert!(matches!(wb.editor_update(Message::ResizeMove), Effect::Nothing));
    wb.editor_update(Message::ResizeStart(9));
    assert!(matches!(wb.editor_update(Message::ResizeMove), Effect::Nothing));
}

#[test]
fn select_connection_clears_element_selection() {
    let mut wb = board();
    wb.selected = Some(0);
    wb.edit_content = Some("x".to_string());
    wb.editor_update(Message::SelectConnection(2));
    assert_eq!(wb.selected_connection, Some(2));
    assert_eq!(wb.selected, None);
    assert_eq!(wb.edit_content, None);
}

#[test]
fn save_and_load_effects() {
    let mut wb = board();
    assert!(matches!(wb.editor_update(Message::Save), Effect::AskSavePath));
    wb.current_path = Some("/tmp/board.json".to_string());
    match wb.editor_update(Message::Save) {
        Effect::SaveTo(p) => assert_eq!(p, "/tmp/board.json"),
        _ => panic!("expected a save"),
    }
    assert!(matches!(wb.editor_update(Message::Load), Effect::AskLoadPath));
}

#[test]
fn app_moves_between_lobby_and_editor() {
    let mut app: App<Frame> = App::new();
    assert!(matches!(app.phase, Phase::Lobby));
    // editor messages are ignored in the lobby
    assert!(matches!(update(&mut app, Message::DeleteSelected), Effect::Nothing));
    assert!(matches!(update(&mut app, Message::LoadFromDisk), Effect::OpenFromDisk));
    assert!(matches!(app.phase, Phase::Lobby));
    update(&mut app, Message::NewWhiteboard);
    match &app.phase {
        Phase::Editor(wb) => assert!(wb.elements.is_empty()),
        _ => panic!("expected the editor"),
    }
    update(&mut app, Message::NewNode((0.0, 0.0, 1.0, 1.0)));
    match &app.phase {
        Phase::Editor(wb) => assert_eq!(wb.elements.len(), 1),
        _ => panic!("expected the editor"),
    }
    update(&mut app, Message::GoToLobby);
    assert!(matches!(app.phase, Phase::Lobby));
}
