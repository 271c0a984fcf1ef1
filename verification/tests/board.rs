use burrito::board::{Connection, Item, Whiteboard, WhiteboardData};

type Frame = (f32, f32, f32, f32);

fn frame(x: f32, y: f32) -> Frame {
    (x, y, 160.0, 120.0)
}

fn children(wb: &Whiteboard<Frame>, id: u64) -> Vec<u64> {
    match wb.elements.get(&id) {
        Some(Item::Group(g)) => g.children.clone(),
        _ => panic!("not a group"),
    }
}

#[test]
fn new_board_is_empty() {
    let wb: Whiteboard<Frame> = Whiteboard::new();
    assert!(wb.elements.is_empty());
    assert!(wb.order.is_empty());
    assert!(wb.connections.is_empty());
    assert_eq!(wb.next_id, 0);
    assert_eq!(wb.selected, None);
    assert!(!wb.connection_mode);
}

#[test]
fn add_node_and_group_hand_out_consecutive_ids() {
    let mut wb = Whiteboard::new();
    let a = wb.add_node("hello".to_string(), frame(1.0, 2.0));
    let g = wb.add_group((0.0, 0.0, 300.0, 200.0));
    assert_eq!(a, 0);
    assert_eq!(g, 1);
    assert_eq!(wb.next_id, 2);
    assert_eq!(wb.order, vec![0, 1]);
    match wb.elements.get(&a) {
        Some(Item::Node(n)) => {
            assert_eq!(n.text, "hello");
            assert_eq!(n.id, 0);
            assert_eq!(n.frame, frame(1.0, 2.0));
        }
        _ => panic!("expected a node"),
    }
    assert!(children(&wb, g).is_empty());
    assert_eq!(wb.elements.get(&g).unwrap().id(), 1);
}

#[test]
fn add_child_to_group_only_changes_groups() {
    let mut wb = Whiteboard::new();
    let n = wb.add_node("n".to_string(), frame(0.0, 0.0));
    let g = wb.add_group(frame(0.0, 0.0));
    wb.add_child_to_group(g, n);
    wb.add_child_to_group(g, n);
    assert_eq!(children(&wb, g), vec![n, n]);
    // a node does not take children
    wb.add_child_to_group(n, g);
    assert!(matches!(wb.elements.get(&n), Some(Item::Node(_))));
    // a missing element is ignored
    wb.add_child_to_group(99, n);
    assert_eq!(wb.elements.len(), 2);
}

#[test]
fn delete_element_removes_every_reference() {
    let mut wb = Whiteboard::new();
    let a = wb.add_node("a".to_string(), frame(0.0, 0.0));
    let b = wb.add_node("b".to_string(), frame(0.0, 0.0));
    let g = wb.add_group(frame(0.0, 0.0));
    wb.add_child_to_group(g, a);
    wb.add_child_to_group(g, b);
    wb.connections.push(Connection { from: a, to: b });
    wb.connections.push(Connection { from: b, to: g });
    wb.connections.push(Connection { from: g, to: a });
    wb.selected = Some(a);
    wb.edit_content = Some("a".to_string());
    wb.delete_element(a);
    assert!(!wb.elements.contains_key(&a));
    assert_eq!(wb.order, vec![b, g]);
    assert_eq!(wb.connections, vec![Connection { from: b, to: g }]);
    assert_eq!(children(&wb, g), vec![b]);
    assert_eq!(wb.selected, None);
    assert_eq!(wb.edit_content, None);
}

#[test]
fn delete_keeps_selection_of_other_elements() {
    let mut wb = Whiteboard::new();
    let a = wb.add_node("a".to_string(), frame(0.0, 0.0));
    let b = wb.add_node("b".to_string(), frame(0.0, 0.0));
    wb.selected = Some(b);
    wb.edit_content = Some("b".to_string());
    wb.delete_element(a);
    assert_eq!(wb.selected, Some(b));
    assert_eq!(wb.edit_content, Some("b".to_string()));
}

#[test]
fn delete_after_add_restores_the_board() {
    let mut wb = Whiteboard::new();
    let a = wb.add_node("a".to_string(), frame(0.0, 0.0));
    let g = wb.add_group(frame(0.0, 0.0));
    wb.add_child_to_group(g, a);
    wb.connections.push(Connection { from: a, to: g });
    let order_before = wb.order.clone();
    let conns_before = wb.connections.clone();
    let n = wb.add_node("temp".to_string(), frame(5.0, 5.0));
    wb.delete_element(n);
    assert_eq!(wb.order, order_before);
    assert_eq!(wb.connections, conns_before);
    assert_eq!(wb.elements.len(), 2);
    assert_eq!(children(&wb, g), vec![a]);
}

#[test]
fn find_element_prefers_topmost_node_over_groups() {
    let mut wb = Whiteboard::new();
    let g1 = wb.add_group(frame(0.0, 0.0));
    let n1 = wb.add_node("1".to_string(), frame(0.0, 0.0));
    let g2 = wb.add_group(frame(0.0, 0.0));
    let n2 = wb.add_node("2".to_string(), frame(0.0, 0.0));
    // everything hit: the node drawn last wins
    assert_eq!(wb.find_element_at(&vec![true, true, true, true]), Some(n2));
    // only the first node and both groups: the node wins over the groups drawn above it
    assert_eq!(wb.find_element_at(&vec![true, true, true, false]), Some(n1));
    // only groups: the topmost group
    assert_eq!(wb.find_element_at(&vec![true, false, true, false]), Some(g2));
    assert_eq!(wb.find_element_at(&vec![true, false, false, false]), Some(g1));
    assert_eq!(wb.find_element_at(&vec![false, false, false, false]), None);
}

#[test]
fn find_element_skips_ids_that_are_not_on_the_board() {
    let mut wb: Whiteboard<Frame> = Whiteboard::new();
    wb.order.push(42);
    let n = wb.add_node("n".to_string(), frame(0.0, 0.0));
    assert_eq!(wb.find_element_at(&vec![true, false]), None);
    assert_eq!(wb.find_element_at(&vec![true, true]), Some(n));
}

#[test]
fn find_connection_needs_both_ends() {
    let mut wb = Whiteboard::new();
    let a = wb.add_node("a".to_string(), frame(0.0, 0.0));
    let b = wb.add_node("b".to_string(), frame(0.0, 0.0));
    wb.connections.push(Connection { from: a, to: 7 });
    wb.connections.push(Connection { from: a, to: b });
    wb.connections.push(Connection { from: b, to: a });
    assert_eq!(wb.find_connection_at(&vec![true, true, true]), Some(1));
    assert_eq!(wb.find_connection_at(&vec![true, false, true]), Some(2));
    assert_eq!(wb.find_connection_at(&vec![true, false, false]), None);
}

#[test]
fn move_element_walks_groups_and_their_children() {
    let mut wb = Whiteboard::new();
    let outer = wb.add_group(frame(0.0, 0.0));
    let inner = wb.add_group(frame(0.0, 0.0));
    let a = wb.add_node("a".to_string(), frame(0.0, 0.0));
    let b = wb.add_node("b".to_string(), frame(0.0, 0.0));
    wb.add_child_to_group(outer, inner);
    wb.add_child_to_group(outer, b);
    wb.add_child_to_group(inner, a);
    wb.add_child_to_group(inner, 77);
    assert_eq!(wb.move_element(outer), vec![outer, inner, a, b]);
    assert_eq!(wb.move_element(a), vec![a]);
    assert_eq!(wb.move_element(99), Vec::<u64>::new());
    // a child listed twice is moved twice
    wb.add_child_to_group(outer, b);
    assert_eq!(wb.move_element(outer), vec![outer, inner, a, b, b]);
}

#[test]
fn move_element_stops_on_a_cycle() {
    let mut wb: Whiteboard<Frame> = Whiteboard::new();
    let g = wb.add_group(frame(0.0, 0.0));
    let h = wb.add_group(frame(0.0, 0.0));
    wb.add_child_to_group(g, h);
    wb.add_child_to_group(h, g);
    // two elements: the walk goes two levels deep
    assert_eq!(wb.move_element(g), vec![g, h]);
}

#[test]
fn to_data_and_from_data_keep_the_saved_part() {
    let mut wb = Whiteboard::new();
    let a = wb.add_node("a".to_string(), frame(0.0, 0.0));
    let b = wb.add_node("b".to_string(), frame(1.0, 0.0));
    wb.connections.push(Connection { from: a, to: b });
    wb.selected = Some(a);
    wb.connection_mode = true;
    let data: WhiteboardData<Frame> = wb.to_data();
    assert_eq!(data.order, vec![a, b]);
    assert_eq!(data.next_id, 2);
    assert_eq!(data.connections, vec![Connection { from: a, to: b }]);
    let back = Whiteboard::from_data(data);
    assert_eq!(back.order, vec![a, b]);
    assert_eq!(back.elements.len(), 2);
    assert_eq!(back.selected, None);
    assert!(!back.connection_mode);
}

#[test]
fn set_frame_keeps_the_rest_of_the_item() {
    let mut wb = Whiteboard::new();
    let a = wb.add_node("a".to_string(), frame(0.0, 0.0));
    let mut item = wb.elements.remove(&a).unwrap();
    item.set_frame((3.0, 4.0, 50.0, 30.0));
    match item {
        Item::Node(n) => {
            assert_eq!(n.frame, (3.0, 4.0, 50.0, 30.0));
            assert_eq!(n.text, "a");
            assert_eq!(n.id, a);
        }
        _ => panic!("expected a node"),
    }
}

#[test]
fn remove_child_from_group_drops_all_occurrences() {
    let mut wb = Whiteboard::new();
    let g = wb.add_group(frame(0.0, 0.0));
    wb.add_child_to_group(g, 5);
    wb.add_child_to_group(g, 6);
    wb.add_child_to_group(g, 5);
    wb.remove_child_from_group(g, 5);
    assert_eq!(children(&wb, g), vec![6]);
}

#[test]
fn element_ids_lists_each_element_once() {
    let mut wb = Whiteboard::new();
    for _ in 0..5 {
        wb.add_node("x".to_string(), frame(0.0, 0.0));
    }
    let mut ids = wb.element_ids();
    ids.sort();
    assert_eq!(ids, vec![0, 1, 2, 3, 4]);
}

#[test]
fn selection_label_names_the_selected_element() {
    let mut wb = Whiteboard::new();
    let a = wb.add_node("hello".to_string(), frame(0.0, 0.0));
    let g = wb.add_group(frame(0.0, 0.0));
    assert_eq!(wb.selection_label(), None);
    wb.selected = Some(a);
    assert_eq!(wb.selection_label(), Some("Node 0: hello".to_string()));
    wb.add_child_to_group(g, a);
    wb.add_child_to_group(g, 12);
    wb.selected = Some(g);
    assert_eq!(wb.selection_label(), Some("Group 1 (2 children)".to_string()));
    wb.selected = Some(5);
    assert_eq!(wb.selection_label(), None);
}

#[test]
fn decimal_writes_numbers_without_leading_zeros() {
    let mut s = String::from("n=");
    burrito::text::push_decimal(&mut s, 0);
    s.push(',');
    burrito::text::push_decimal(&mut s, 1070);
    s.push(',');
    burrito::text::push_decimal(&mut s, u64::MAX);
    assert_eq!(s, format!("n=0,1070,{}", u64::MAX));
}

#[test]
fn reload_keeps_the_board() {
    let mut wb = Whiteboard::new();
    let a = wb.add_node("a".to_string(), frame(0.0, 0.0));
    let g = wb.add_group(frame(0.0, 0.0));
    wb.add_child_to_group(g, a);
    wb.connections.push(Connection { from: a, to: g });
    let r = Whiteboard::from_data(wb.to_data());
    assert_eq!(r.order, wb.order);
    assert_eq!(r.connections, wb.connections);
    assert_eq!(r.next_id, wb.next_id);
    assert_eq!(children(&r, g), vec![a]);
}
