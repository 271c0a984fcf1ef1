use vstd::prelude::*;

use crate::board::{avoids, visits, Connection, Id, Item, ItemView, Whiteboard};
use crate::seqs::not_id;

verus! {

/// What the editor is asked to do. Coordinates stay with the caller: a message that needs
/// them says only what it is about, and the `Effect` that comes back says what to do with them.
pub enum Message<F> {
    NewWhiteboard,
    LoadFromDisk,
    GoToLobby,
    /// Add a node drawn at the given frame.
    NewNode(F),
    /// Add a group drawn at the given frame.
    NewGroup(F),
    DeleteSelected,
    SelectAndDrag(Id),
    DragMove,
    /// End a drag; entry `i` tells whether the element at position `i` of the drawing order
    /// contains the centre of the dragged element.
    DragEnd(Vec<bool>),
    /// The side editor now holds the given text for element `Id`.
    EditNodeText(Id, String),
    ToggleConnectionMode,
    StartConnection(Id),
    EndConnection(Id),
    PanStart,
    PanMove,
    PanEnd,
    ResizeStart(Id),
    ResizeMove,
    ResizeEnd,
    SelectConnection(usize),
    Save,
    Load,
}

/// What the caller has to do after an update.
pub enum Effect {
    Nothing,
    /// Fill the side editor with the board's `edit_content`.
    OpenEditor,
    /// Shift each element of `targets`, in turn, by the distance that brings element
    /// `root` to the pointer.
    Move { root: Id, targets: Vec<Id> },
    /// Resize element `Id` to the pointer.
    Resize(Id),
    /// Pan the view by the pointer's movement.
    Pan,
    /// Write the board to the given path.
    SaveTo(String),
    /// Ask the user where to save the board.
    AskSavePath,
    /// Ask the user for a saved board and replace this one with it.
    AskLoadPath,
    /// Ask the user for a saved board and open it in a new editor.
    OpenFromDisk,
}

/// Where the dragged element `id` lands: the first position of `order`, from `i` on, that
/// holds another group on the board whose area contains the element's centre.
pub open spec fn landing<F>(
    items: Map<Id, ItemView<F>>,
    order: Seq<Id>,
    inside: Seq<bool>,
    id: Id,
    i: int,
) -> Option<int>
    decreases order.len() - i,
{
    if i < 0 || i >= order.len() {
        None
    } else if order[i] != id && items.contains_key(order[i]) && items[order[i]].is_group()
        && inside[i] {
        Some(i)
    } else {
        landing(items, order, inside, id, i + 1)
    }
}

/// The elements with `id` dropped from the children of every group.
pub open spec fn released<F>(items: Map<Id, ItemView<F>>, id: Id) -> Map<Id, ItemView<F>> {
    items.map_values(|v: ItemView<F>| v.without_child(id))
}

/// Whether position `j` of `order` can take the dragged element `id`: it holds another
/// element, that element is a group on the board, and its area contains the centre.
pub open spec fn lands_at<F>(
    items: Map<Id, ItemView<F>>,
    order: Seq<Id>,
    inside: Seq<bool>,
    id: Id,
    j: int,
) -> bool {
    &&& 0 <= j < order.len()
    &&& order[j] != id
    &&& items.contains_key(order[j])
    &&& items[order[j]].is_group()
    &&& inside[j]
}

/// Where a drag lands is a later position that holds another group containing the centre.
pub proof fn lemma_landing<F>(
    items: Map<Id, ItemView<F>>,
    order: Seq<Id>,
    inside: Seq<bool>,
    id: Id,
    i: int,
)
    ensures
        landing(items, order, inside, id, i) matches Some(k) ==> {
            &&& 0 <= i <= k < order.len()
            &&& order[k] != id
            &&& items.contains_key(order[k])
            &&& items[order[k]].is_group()
            &&& inside[k]
        },
    decreases order.len() - i,
{
    if 0 <= i < order.len() {
        lemma_landing(items, order, inside, id, i + 1);
    }
}

/// The elements after a drag of `id` ends: `id` leaves every group; then, if it is still on
/// the board and lands in a group `g`, `g` is dropped from `id`'s own children and `id` is
/// appended to `g`'s children.
pub open spec fn regrouped<F>(
    items: Map<Id, ItemView<F>>,
    order: Seq<Id>,
    inside: Seq<bool>,
    id: Id,
) -> Map<Id, ItemView<F>> {
    let s = items.map_values(|v: ItemView<F>| v.without_child(id));
    if !s.contains_key(id) {
        s
    } else {
        match landing(s, order, inside, id, 0) {
            None => s,
            Some(k) => {
                let g = order[k];
                let s2 = s.insert(id, s[id].without_child(g));
                s2.insert(g, s2[g].with_child(id))
            },
        }
    }
}

impl<F> Whiteboard<F> {
    /// Ends a drag. `inside[i]` tells whether the element at position `i` of the drawing
    /// order contains the centre of the dragged element.
    pub fn drag_end(&mut self, inside: &Vec<bool>)
        requires
            inside@.len() == old(self).order@.len(),
        ensures
            final(self).items() == (match old(self).drag {
                Some(id) => regrouped(old(self).items(), old(self).order@, inside@, id),
                None => old(self).items(),
            }),
            *final(self) == (Whiteboard { elements: final(self).elements, drag: None, ..*old(self) }),
            old(self).well_keyed() ==> final(self).well_keyed(),
            old(self).drag matches Some(id) ==> forall|g: Id|
                #[trigger] final(self).items().contains_key(g) && final(self).items()[g].is_group()
                    && final(self).items()[g]->Group_children.contains(id) ==> exists|j: int|
                    #![trigger old(self).order@[j]]
                    lands_at(
                        released(old(self).items(), id),
                        old(self).order@,
                        inside@,
                        id,
                        j,
                    ) && old(self).order@[j] == g && forall|i: int|
                        0 <= i < j ==> !#[trigger] lands_at(
                            released(old(self).items(), id),
                            old(self).order@,
                            inside@,
                            id,
                            i,
                        ),
    {
        proof {
            if let Some(id) = old(self).drag {
                crate::laws::law_drag_lands_in_first_group(old(self).items(), old(self).order@, inside@, id);
            }
        }
        if let Some(id) = self.drag {
            self.drop_child_everywhere(id);
            let ghost s = self.items();
            if self.elements.contains_key(&id) {
                let n = self.order.len();
                let mut found: Option<usize> = None;
                let mut i: usize = 0;
                while i < n && found.is_none()
                    invariant
                        n == self.order@.len() == inside@.len(),
                        i <= n,
                        s == self.items(),
                        found is None ==> landing(s, self.order@, inside@, id, 0) == landing(
                            s,
                            self.order@,
                            inside@,
                            id,
                            i as int,
                        ),
                        found matches Some(k) ==> k < n && landing(s, self.order@, inside@, id, 0)
                            == Some(k as int),
                    decreases n - i,
                {
                    let g = self.order[i];
                    let is_group = match self.elements.get(&g) {
                        Some(Item::Group(_)) => true,
                        _ => false,
                    };
                    if g != id && is_group && inside[i] {
                        found = Some(i);
                    }
                    i = i + 1;
                }
                if found.is_none() {
                    assert(landing(s, self.order@, inside@, id, n as int) is None);
                }
                if let Some(k) = found {
                    proof {
                        lemma_landing(s, self.order@, inside@, id, 0);
                    }
                    let g = self.order[k];
                    assert(g != id && s.contains_key(g) && s[g].is_group());
                    self.remove_child_from_group(id, g);
                    let ghost s2 = self.items();
                    assert(s2 == s.insert(id, s[id].without_child(g)));
                    assert(s2[g] == s[g]);
                    self.add_child_to_group(g, id);
                }
            }
        }
        self.drag = None;
    }
}

/// Which screen the application shows.
pub enum Phase<F> {
    Lobby,
    Editor(Whiteboard<F>),
}

/// The application: a lobby, or an editor on one whiteboard.
pub struct App<F> {
    pub phase: Phase<F>,
}

impl<F> App<F> {
    /// The application starts in the lobby.
    pub fn new() -> (r: Self)
        ensures
            r.phase is Lobby,
    {
        App { phase: Phase::Lobby }
    }
}

/// An open whiteboard stores every element under its own id, below the next id, and has no
/// connection from an element to itself.
pub open spec fn app_ok<F>(app: App<F>) -> bool {
    app.phase matches Phase::Editor(wb) ==> wb.well_keyed() && wb.no_self_loops()
}

/// Whether `update` can handle `message` in `app` without failing.
pub open spec fn update_accepts<F>(app: App<F>, message: Message<F>) -> bool {
    match app.phase {
        Phase::Editor(wb) => Whiteboard::editor_accepts(wb, message),
        Phase::Lobby => true,
    }
}

/// Applies one message to the application and says what the caller has to do. The lobby
/// opens a new or a saved whiteboard; every other message goes to the editor, if one is open.
pub fn update<F>(app: &mut App<F>, message: Message<F>) -> (eff: Effect)
    requires
        update_accepts(*old(app), message),
    ensures
        match message {
            Message::NewWhiteboard => final(app).phase matches Phase::Editor(wb) && wb.is_fresh()
                && eff is Nothing,
            Message::LoadFromDisk => *final(app) == *old(app) && eff is OpenFromDisk,
            Message::GoToLobby => final(app).phase is Lobby && eff is Nothing,
            _ => match old(app).phase {
                Phase::Editor(pre) => final(app).phase matches Phase::Editor(post)
                    && Whiteboard::editor_post(pre, post, message, eff),
                Phase::Lobby => *final(app) == *old(app) && eff is Nothing,
            },
        },
        app_ok(*old(app)) ==> app_ok(*final(app)),
{
    match message {
        Message::NewWhiteboard => {
            app.phase = Phase::Editor(Whiteboard::new());
            Effect::Nothing
        },
        Message::LoadFromDisk => Effect::OpenFromDisk,
        Message::GoToLobby => {
            app.phase = Phase::Lobby;
            Effect::Nothing
        },
        _ => match &mut app.phase {
            Phase::Editor(wb) => wb.editor_update(message),
            Phase::Lobby => Effect::Nothing,
        },
    }
}

impl<F> Whiteboard<F> {
    /// What an editor update does to the board (`pre` becomes `post`) and asks of the caller.
    pub open spec fn editor_post(pre: Self, post: Self, msg: Message<F>, eff: Effect) -> bool {
        match msg {
            Message::NewNode(frame) => {
                let id = pre.next_id;
                &&& post.items() == pre.items().insert(
                    id,
                    ItemView::Node { id, text: "New Node"@, frame },
                )
                &&& post.order@ == pre.order@.push(id)
                &&& post.next_id == id + 1
                &&& post.edit_content matches Some(t) && t@ == "New Node"@
                &&& post == (Whiteboard {
                    elements: post.elements,
                    order: post.order,
                    next_id: post.next_id,
                    selected: Some(id),
                    connection_mode: false,
                    connection_source: None,
                    edit_content: post.edit_content,
                    ..pre
                })
                &&& eff is OpenEditor
            },
            Message::NewGroup(frame) => {
                let id = pre.next_id;
                &&& post.items() == pre.items().insert(
                    id,
                    ItemView::Group { id, frame, children: Seq::empty() },
                )
                &&& post.order@ == pre.order@.push(id)
                &&& post.next_id == id + 1
                &&& post == (Whiteboard {
                    elements: post.elements,
                    order: post.order,
                    next_id: post.next_id,
                    selected: Some(id),
                    connection_mode: false,
                    connection_source: None,
                    ..pre
                })
                &&& eff is Nothing
            },
            Message::DeleteSelected => {
                &&& eff is Nothing
                &&& match pre.selected_connection {
                    Some(i) => {
                        &&& post.connections@ == pre.connections@.remove(i as int)
                        &&& post == (Whiteboard {
                            connections: post.connections,
                            selected_connection: None,
                            connection_mode: false,
                            connection_source: None,
                            ..pre
                        })
                    },
                    None => match pre.selected {
                        Some(id) => {
                            &&& post.order@ == pre.order@.filter(not_id(id))
                            &&& post.items() == pre.items().remove(id).map_values(
                                |v: ItemView<F>| v.without_child(id),
                            )
                            &&& post.connections@ == pre.connections@.filter(avoids(id))
                            &&& post == (Whiteboard {
                                elements: post.elements,
                                order: post.order,
                                connections: post.connections,
                                selected: None,
                                edit_content: None,
                                connection_mode: false,
                                connection_source: None,
                                ..pre
                            })
                        },
                        None => post == (Whiteboard {
                            connection_mode: false,
                            connection_source: None,
                            ..pre
                        }),
                    },
                }
            },
            Message::SelectAndDrag(id) => {
                let is_node = pre.items().contains_key(id) && !pre.items()[id].is_group();
                &&& post == (Whiteboard {
                    selected: Some(id),
                    selected_connection: None,
                    drag: Some(id),
                    edit_content: post.edit_content,
                    ..pre
                })
                &&& if is_node {
                    &&& post.edit_content matches Some(t) && t@ == pre.items()[id]->Node_text
                    &&& eff is OpenEditor
                } else {
                    &&& post.edit_content is None
                    &&& eff is Nothing
                }
            },
            Message::DragMove => {
                &&& post == pre
                &&& match pre.drag {
                    Some(id) => if pre.items().contains_key(id) {
                        eff matches Effect::Move { root, targets } && root == id && targets@
                            == visits(pre.items(), id, pre.elements@.len())
                    } else {
                        eff is Nothing
                    },
                    None => eff is Nothing,
                }
            },
            Message::DragEnd(inside) => {
                &&& post.items() == (match pre.drag {
                    Some(id) => regrouped(pre.items(), pre.order@, inside@, id),
                    None => pre.items(),
                })
                &&& post == (Whiteboard { elements: post.elements, drag: None, ..pre })
                &&& eff is Nothing
            },
            Message::EditNodeText(id, text) => {
                &&& eff is Nothing
                &&& if pre.edit_content is Some {
                    &&& post.edit_content matches Some(t) && t@ == text@
                    &&& post.items() == (if pre.items().contains_key(id)
                        && !pre.items()[id].is_group() {
                        pre.items().insert(
                            id,
                            ItemView::Node {
                                id: pre.items()[id]->Node_id,
                                text: text@,
                                frame: pre.items()[id]->Node_frame,
                            },
                        )
                    } else {
                        pre.items()
                    })
                    &&& post == (Whiteboard {
                        elements: post.elements,
                        edit_content: post.edit_content,
                        ..pre
                    })
                } else {
                    post == pre
                }
            },
            Message::ToggleConnectionMode => {
                &&& post == (Whiteboard {
                    connection_mode: !pre.connection_mode,
                    connection_source: None,
                    ..pre
                })
                &&& eff is Nothing
            },
            Message::StartConnection(id) => {
                &&& post == (Whiteboard {
                    connection_source: if pre.connection_source == Some(id) {
                        None
                    } else {
                        Some(id)
                    },
                    ..pre
                })
                &&& eff is Nothing
            },
            Message::EndConnection(id) => {
                &&& eff is Nothing
                &&& match pre.connection_source {
                    Some(src) => if src != id {
                        &&& post.connections@ == pre.connections@.push(
                            Connection { from: src, to: id },
                        )
                        &&& post == (Whiteboard {
                            connections: post.connections,
                            connection_source: Some(id),
                            ..pre
                        })
                    } else {
                        post == pre
                    },
                    None => post == pre,
                }
            },
            Message::PanStart => {
                &&& post == (Whiteboard { selected_connection: None, panning: true, ..pre })
                &&& eff is Nothing
            },
            Message::PanMove => {
                &&& post == pre
                &&& if pre.panning {
                    eff is Pan
                } else {
                    eff is Nothing
                }
            },
            Message::PanEnd => {
                &&& post == (Whiteboard { panning: false, ..pre })
                &&& eff is Nothing
            },
            Message::ResizeStart(id) => {
                &&& post == (Whiteboard { resize: Some(id), ..pre })
                &&& eff is Nothing
            },
            Message::ResizeMove => {
                &&& post == pre
                &&& match pre.resize {
                    Some(id) => if pre.items().contains_key(id) {
                        eff == Effect::Resize(id)
                    } else {
                        eff is Nothing
                    },
                    None => eff is Nothing,
                }
            },
            Message::ResizeEnd => {
                &&& post == (Whiteboard { resize: None, ..pre })
                &&& eff is Nothing
            },
            Message::SelectConnection(idx) => {
                &&& post == (Whiteboard {
                    selected_connection: Some(idx),
                    selected: None,
                    edit_content: None,
                    ..pre
                })
                &&& eff is Nothing
            },
            Message::Save => {
                &&& post == pre
                &&& match pre.current_path {
                    Some(p) => eff matches Effect::SaveTo(q) && q@ == p@,
                    None => eff is AskSavePath,
                }
            },
            Message::Load => {
                &&& post == pre
                &&& eff is AskLoadPath
            },
            _ => {
                &&& post == pre
                &&& eff is Nothing
            },
        }
    }

    /// Whether `editor_update` can handle `msg` on board `b` without failing.
    pub open spec fn editor_accepts(b: Self, msg: Message<F>) -> bool {
        match msg {
            Message::NewNode(_) => b.next_id < u64::MAX,
            Message::NewGroup(_) => b.next_id < u64::MAX,
            Message::DeleteSelected => b.selected_connection matches Some(i) ==> i
                < b.connections@.len(),
            Message::DragEnd(inside) => inside@.len() == b.order@.len(),
            _ => true,
        }
    }

    /// Applies one editor message to the board and says what the caller has to do.
    pub fn editor_update(&mut self, msg: Message<F>) -> (eff: Effect)
        requires
            Self::editor_accepts(*old(self), msg),
        ensures
            Self::editor_post(*old(self), *final(self), msg, eff),
            old(self).well_keyed() ==> final(self).well_keyed(),
            old(self).no_self_loops() ==> final(self).no_self_loops(),
            old(self).selection_in_range() && (msg matches Message::SelectConnection(i) ==> i
                < old(self).connections@.len()) ==> final(self).selection_in_range(),
    {
        match msg {
            Message::NewNode(frame) => {
                self.connection_mode = false;
                self.connection_source = None;
                let id = self.add_node("New Node".to_string(), frame);
                self.selected = Some(id);
                self.edit_content = Some("New Node".to_string());
                Effect::OpenEditor
            },
            Message::NewGroup(frame) => {
                self.connection_mode = false;
                self.connection_source = None;
                let id = self.add_group(frame);
                self.selected = Some(id);
                Effect::Nothing
            },
            Message::DeleteSelected => {
                self.connection_mode = false;
                self.connection_source = None;
                if let Some(idx) = self.selected_connection {
                    self.connections.remove(idx);
                    self.selected_connection = None;
                } else if let Some(id) = self.selected {
                    self.delete_element(id);
                }
                Effect::Nothing
            },
            Message::SelectAndDrag(id) => {
                self.selected = Some(id);
                self.selected_connection = None;
                self.drag = Some(id);
                let text = match self.elements.get(&id) {
                    Some(Item::Node(n)) => Some(n.text.clone()),
                    _ => None,
                };
                let opened = text.is_some();
                self.edit_content = text;
                if opened {
                    Effect::OpenEditor
                } else {
                    Effect::Nothing
                }
            },
            Message::DragMove => {
                if let Some(id) = self.drag {
                    if self.elements.contains_key(&id) {
                        let targets = self.move_element(id);
                        return Effect::Move { root: id, targets };
                    }
                }
                Effect::Nothing
            },
            Message::DragEnd(inside) => {
                self.drag_end(&inside);
                Effect::Nothing
            },
            Message::EditNodeText(id, text) => {
                if self.edit_content.is_some() {
                    let ghost pre = self.items();
                    if let Some(item) = self.elements.remove(&id) {
                        match item {
                            Item::Node(n) => {
                                self.elements.insert(
                                    id,
                                    Item::Node(crate::board::NodeData {
                                        id: n.id,
                                        text: text.clone(),
                                        frame: n.frame,
                                    }),
                                );
                                assert(self.items() =~= pre.insert(
                                    id,
                                    ItemView::Node {
                                        id: pre[id]->Node_id,
                                        text: text@,
                                        frame: pre[id]->Node_frame,
                                    },
                                ));
                            },
                            Item::Group(g) => {
                                self.elements.insert(id, Item::Group(g));
                                assert(self.items() =~= pre);
                            },
                        }
                    } else {
                        assert(self.items() =~= pre);
                    }
                    self.edit_content = Some(text);
                }
                Effect::Nothing
            },
            Message::ToggleConnectionMode => {
                self.connection_mode = !self.connection_mode;
                self.connection_source = None;
                Effect::Nothing
            },
            Message::StartConnection(id) => {
                if self.connection_source == Some(id) {
                    self.connection_source = None;
                } else {
                    self.connection_source = Some(id);
                }
                Effect::Nothing
            },
            Message::EndConnection(id) => {
                if let Some(src) = self.connection_source {
                    if src != id {
                        self.connections.push(Connection { from: src, to: id });
                        self.connection_source = Some(id);
                    }
                }
                Effect::Nothing
            },
            Message::PanStart => {
                self.selected_connection = None;
                self.panning = true;
                Effect::Nothing
            },
            Message::PanMove => {
                if self.panning {
                    Effect::Pan
                } else {
                    Effect::Nothing
                }
            },
            Message::PanEnd => {
                self.panning = false;
                Effect::Nothing
            },
            Message::ResizeStart(id) => {
                self.resize = Some(id);
                Effect::Nothing
            },
            Message::ResizeMove => {
                if let Some(id) = self.resize {
                    if self.elements.contains_key(&id) {
                        return Effect::Resize(id);
                    }
                }
                Effect::Nothing
            },
            Message::ResizeEnd => {
                self.resize = None;
                Effect::Nothing
            },
            Message::SelectConnection(idx) => {
                self.selected_connection = Some(idx);
                self.selected = None;
                self.edit_content = None;
                Effect::Nothing
            },
            Message::Save => {
                match &self.current_path {
                    Some(p) => Effect::SaveTo(p.clone()),
                    None => Effect::AskSavePath,
                }
            },
            Message::Load => Effect::AskLoadPath,
            _ => Effect::Nothing,
        }
    }
}

} // verus!
