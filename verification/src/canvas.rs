use vstd::prelude::*;

use crate::board::{Id, Whiteboard};

verus! {

/// What a pointer event on the canvas turns into. The caller adds the coordinates that the
/// messages carry: the grab offset of a drag, the pointer for a pan, the size of a resize.
#[derive(PartialEq, Eq, Structural, Debug, Clone, Copy)]
pub enum CanvasAction {
    /// The event is not handled.
    Ignore,
    /// The event is consumed without a message.
    Capture,
    StartConnection(Id),
    EndConnection(Id),
    ResizeStart(Id),
    SelectAndDrag(Id),
    SelectConnection(usize),
    PanStart,
    ResizeMove(Id),
    DragMove,
    PanMove,
    ResizeEnd,
    DragEnd,
    PanEnd,
}

/// The pointer shape over the canvas.
#[derive(PartialEq, Eq, Structural, Debug, Clone, Copy)]
pub enum Interaction {
    Idle,
    Pointer,
    ResizingDiagonallyUp,
}

impl<F> Whiteboard<F> {
    /// Whether the selected element is on the board and the pointer is on its resize handle.
    pub open spec fn on_handle(&self, over_handle: bool) -> bool {
        &&& over_handle
        &&& self.selected matches Some(id) && self.items().contains_key(id)
    }

    /// The left button goes down on the canvas. `over_handle` tells whether the pointer is on
    /// the resize handle of the selected element, `hits` which elements of the drawing order
    /// it is inside, `near` which connections it is close to.
    pub fn on_press(&self, over_handle: bool, hits: &Vec<bool>, near: &Vec<bool>) -> (r:
        CanvasAction)
        requires
            hits@.len() == self.order@.len(),
            near@.len() == self.connections@.len(),
        ensures
            r == (if self.drag is Some || self.panning {
                CanvasAction::Ignore
            } else if self.connection_mode {
                match self.pick(hits@) {
                    Some(id) => if self.connection_source is None || self.connection_source
                        == Some(id) {
                        CanvasAction::StartConnection(id)
                    } else {
                        CanvasAction::EndConnection(id)
                    },
                    None => CanvasAction::Capture,
                }
            } else if self.on_handle(over_handle) {
                CanvasAction::ResizeStart(self.selected->0)
            } else if self.pick(hits@) is Some {
                CanvasAction::SelectAndDrag(self.pick(hits@)->0)
            } else {
                match self.first_near(near@) {
                    Some(i) => CanvasAction::SelectConnection(i as usize),
                    None => CanvasAction::PanStart,
                }
            }),
            r matches CanvasAction::SelectConnection(i) ==> i < self.connections@.len(),
    {
        proof {
            self.lemma_first_near_from(near@, 0);
        }
        if self.drag.is_some() || self.panning {
            return CanvasAction::Ignore;
        }
        if self.connection_mode {
            return match self.find_element_at(hits) {
                Some(id) => {
                    if self.connection_source.is_none() || self.connection_source == Some(id) {
                        CanvasAction::StartConnection(id)
                    } else {
                        CanvasAction::EndConnection(id)
                    }
                },
                None => CanvasAction::Capture,
            };
        }
        if let Some(id) = self.selected {
            if over_handle && self.elements.contains_key(&id) {
                return CanvasAction::ResizeStart(id);
            }
        }
        if let Some(id) = self.find_element_at(hits) {
            return CanvasAction::SelectAndDrag(id);
        }
        match self.find_connection_at(near) {
            Some(i) => CanvasAction::SelectConnection(i),
            None => CanvasAction::PanStart,
        }
    }

    /// The pointer moves over the canvas.
    pub fn on_cursor_moved(&self) -> (r: CanvasAction)
        ensures
            r == (match self.resize {
                Some(id) if self.items().contains_key(id) => CanvasAction::ResizeMove(id),
                _ => if self.drag is Some {
                    CanvasAction::DragMove
                } else if self.panning {
                    CanvasAction::PanMove
                } else {
                    CanvasAction::Ignore
                },
            }),
    {
        if let Some(id) = self.resize {
            if self.elements.contains_key(&id) {
                return CanvasAction::ResizeMove(id);
            }
        }
        if self.drag.is_some() {
            CanvasAction::DragMove
        } else if self.panning {
            CanvasAction::PanMove
        } else {
            CanvasAction::Ignore
        }
    }

    /// The left button goes up.
    pub fn on_release(&self) -> (r: CanvasAction)
        ensures
            r == (if self.resize is Some {
                CanvasAction::ResizeEnd
            } else if self.drag is Some {
                CanvasAction::DragEnd
            } else if self.panning {
                CanvasAction::PanEnd
            } else {
                CanvasAction::Ignore
            }),
    {
        if self.resize.is_some() {
            CanvasAction::ResizeEnd
        } else if self.drag.is_some() {
            CanvasAction::DragEnd
        } else if self.panning {
            CanvasAction::PanEnd
        } else {
            CanvasAction::Ignore
        }
    }

    /// The pointer shape while the pointer is on the canvas.
    pub fn mouse_interaction(&self, over_handle: bool, hits: &Vec<bool>) -> (r: Interaction)
        requires
            hits@.len() == self.order@.len(),
        ensures
            r == (if self.on_handle(over_handle) {
                Interaction::ResizingDiagonallyUp
            } else if self.pick(hits@) is Some {
                Interaction::Pointer
            } else {
                Interaction::Idle
            }),
    {
        if let Some(id) = self.selected {
            if over_handle && self.elements.contains_key(&id) {
                return Interaction::ResizingDiagonallyUp;
            }
        }
        if self.find_element_at(hits).is_some() {
            Interaction::Pointer
        } else {
            Interaction::Idle
        }
    }
}

} // verus!
