use vstd::prelude::*;

use crate::text::{pop_char, push_char};

verus! {

/// The most characters typed between two frames that are kept for a text area.
pub const MAX_PENDING_CHARS: usize = 1024;

/// The interaction state of an immediate-mode interface: the mouse button, the keys typed
/// since the text area last took them, and which widget is hot, active or focused. Widgets
/// are numbered from 1 in the order they are laid out each frame; 0 means "none".
pub struct GuiContext {
    pub mouse_down: bool,
    /// The button went down since the last frame ended.
    pub mouse_pressed: bool,
    /// The button went up since the last frame ended.
    pub mouse_released: bool,
    pub focused: u64,
    /// The widget that had the focus when the last frame ended.
    pub was_focused: u64,
    pub input_chars: Vec<char>,
    pub key_backspace: bool,
    pub key_enter: bool,
    pub key_delete: bool,
    pub id_gen: u64,
    pub hot: u64,
    pub active: u64,
}

/// What happened to a text area in one frame.
pub struct TextAreaResponse {
    pub id: u64,
    /// The text was edited.
    pub modified: bool,
}

/// The text after the typed characters, a backspace and an enter are applied to it.
pub open spec fn edited(text: Seq<char>, typed: Seq<char>, backspace: bool, enter: bool) -> Seq<char> {
    let t1 = text + typed;
    let t2 = if backspace && t1.len() > 0 {
        t1.drop_last()
    } else {
        t1
    };
    if enter {
        t2.push('\n')
    } else {
        t2
    }
}

impl GuiContext {
    /// Nothing pressed, typed, hot, active or focused.
    pub fn new() -> (r: Self)
        ensures
            !r.mouse_down && !r.mouse_pressed && !r.mouse_released,
            r.focused == 0 && r.was_focused == 0,
            r.input_chars@ == Seq::<char>::empty(),
            !r.key_backspace && !r.key_enter && !r.key_delete,
            r.id_gen == 1 && r.hot == 0 && r.active == 0,
    {
        GuiContext {
            mouse_down: false,
            mouse_pressed: false,
            mouse_released: false,
            focused: 0,
            was_focused: 0,
            input_chars: Vec::new(),
            key_backspace: false,
            key_enter: false,
            key_delete: false,
            id_gen: 1,
            hot: 0,
            active: 0,
        }
    }

    /// The mouse button went down (`pressed`) or up.
    pub fn mouse_press(&mut self, pressed: bool)
        ensures
            *final(self) == (GuiContext {
                mouse_pressed: old(self).mouse_pressed || (pressed && !old(self).mouse_down),
                mouse_down: pressed,
                mouse_released: old(self).mouse_released || !pressed,
                ..*old(self)
            }),
    {
        if pressed && !self.mouse_down {
            self.mouse_pressed = true;
        }
        self.mouse_down = pressed;
        if !pressed {
            self.mouse_released = true;
        }
    }

    /// A key was pressed: `c` is the character it types, if any. Typed characters beyond
    /// `MAX_PENDING_CHARS` waiting ones are dropped.
    pub fn key_event(&mut self, c: Option<char>, backspace: bool, delete: bool, enter: bool)
        ensures
            final(self).input_chars@ == (match c {
                Some(ch) => if old(self).input_chars@.len() < MAX_PENDING_CHARS {
                    old(self).input_chars@.push(ch)
                } else {
                    old(self).input_chars@
                },
                None => old(self).input_chars@,
            }),
            old(self).input_chars@.len() <= MAX_PENDING_CHARS ==> final(self).input_chars@.len()
                <= MAX_PENDING_CHARS,
            *final(self) == (GuiContext {
                input_chars: final(self).input_chars,
                key_backspace: old(self).key_backspace || backspace,
                key_delete: old(self).key_delete || delete,
                key_enter: old(self).key_enter || enter,
                ..*old(self)
            }),
    {
        if let Some(ch) = c {
            if self.input_chars.len() < MAX_PENDING_CHARS {
                self.input_chars.push(ch);
            }
        }
        if backspace {
            self.key_backspace = true;
        }
        if delete {
            self.key_delete = true;
        }
        if enter {
            self.key_enter = true;
        }
    }

    /// Starts laying out a frame: no widget is hot and numbering starts again at 1. Keys
    /// typed while no text area had the focus are discarded.
    pub fn begin_frame(&mut self)
        ensures
            final(self).hot == 0,
            final(self).id_gen == 1,
            old(self).was_focused == 0 ==> final(self).input_chars@ == Seq::<char>::empty()
                && !final(self).key_backspace && !final(self).key_enter
                && !final(self).key_delete,
            old(self).was_focused != 0 ==> final(self).input_chars == old(self).input_chars
                && final(self).key_backspace == old(self).key_backspace && final(self).key_enter
                == old(self).key_enter && final(self).key_delete == old(self).key_delete,
            *final(self) == (GuiContext {
                hot: 0,
                id_gen: 1,
                input_chars: final(self).input_chars,
                key_backspace: final(self).key_backspace,
                key_enter: final(self).key_enter,
                key_delete: final(self).key_delete,
                ..*old(self)
            }),
    {
        self.hot = 0;
        self.id_gen = 1;
        if self.was_focused == 0 {
            self.input_chars.clear();
            self.key_backspace = false;
            self.key_enter = false;
            self.key_delete = false;
        }
    }

    /// Ends a frame: the focus is remembered and the button transitions are forgotten.
    pub fn end_frame(&mut self)
        ensures
            *final(self) == (GuiContext {
                was_focused: old(self).focused,
                mouse_pressed: false,
                mouse_released: false,
                ..*old(self)
            }),
    {
        self.was_focused = self.focused;
        self.mouse_pressed = false;
        self.mouse_released = false;
    }

    /// The number of the next widget laid out.
    fn gen_id(&mut self) -> (id: u64)
        requires
            old(self).id_gen < u64::MAX,
        ensures
            id == old(self).id_gen,
            *final(self) == (GuiContext { id_gen: (id + 1) as u64, ..*old(self) }),
    {
        let id = self.id_gen;
        self.id_gen = self.id_gen + 1;
        id
    }

    /// A button; `over` tells whether the pointer is over it. Returns its number and whether
    /// it was clicked: pressed while over it and released while still over it.
    pub fn button(&mut self, over: bool) -> (r: (u64, bool))
        requires
            old(self).id_gen < u64::MAX,
        ensures
            ({
                let id = old(self).id_gen;
                let grabbed = over && old(self).mouse_pressed && old(self).active == 0;
                let held = grabbed || old(self).active == id;
                let let_go = held && old(self).mouse_released;
                let active = if let_go {
                    0
                } else if grabbed {
                    id
                } else {
                    old(self).active
                };
                &&& r.0 == id
                &&& r.1 == (let_go && over)
                &&& r.1 ==> over && old(self).mouse_released
                &&& *final(self) == (GuiContext {
                    id_gen: (id + 1) as u64,
                    active,
                    hot: if over || active == id {
                        id
                    } else {
                        old(self).hot
                    },
                    ..*old(self)
                })
            }),
    {
        let id = self.gen_id();
        let mut clicked = false;
        if over && self.mouse_pressed && self.active == 0 {
            self.active = id;
        }
        if self.active == id && self.mouse_released {
            if over {
                clicked = true;
            }
            self.active = 0;
        }
        if over || self.active == id {
            self.hot = id;
        }
        (id, clicked)
    }

    /// A checkbox; `over` tells whether the pointer is over its box. A press on the box
    /// flips `checked`. Returns its number.
    pub fn checkbox(&mut self, over: bool, checked: &mut bool) -> (id: u64)
        requires
            old(self).id_gen < u64::MAX,
        ensures
            id == old(self).id_gen,
            ({
                let grabbed = over && old(self).mouse_pressed && old(self).active == 0;
                let held = grabbed || old(self).active == id;
                &&& *final(checked) == (*old(checked) != grabbed)
                &&& *final(self) == (GuiContext {
                    id_gen: (id + 1) as u64,
                    active: if held && old(self).mouse_released {
                        0
                    } else if grabbed {
                        id
                    } else {
                        old(self).active
                    },
                    ..*old(self)
                })
            }),
    {
        let id = self.gen_id();
        if over && self.mouse_pressed && self.active == 0 {
            *checked = !*checked;
            self.active = id;
        }
        if self.active == id && self.mouse_released {
            self.active = 0;
        }
        id
    }

    /// A slider; `over` tells whether the pointer is over its track. Returns its number and
    /// whether its value follows the pointer this frame (it is held and the button is down).
    pub fn slider(&mut self, over: bool) -> (r: (u64, bool))
        requires
            old(self).id_gen < u64::MAX,
        ensures
            ({
                let id = old(self).id_gen;
                let grabbed = over && old(self).mouse_pressed && old(self).active == 0;
                let held = grabbed || old(self).active == id;
                &&& r.0 == id
                &&& r.1 == (held && old(self).mouse_down)
                &&& *final(self) == (GuiContext {
                    id_gen: (id + 1) as u64,
                    active: if held && old(self).mouse_released {
                        0
                    } else if grabbed {
                        id
                    } else {
                        old(self).active
                    },
                    ..*old(self)
                })
            }),
    {
        let id = self.gen_id();
        if over && self.mouse_pressed && self.active == 0 {
            self.active = id;
        }
        let tracking = self.active == id && self.mouse_down;
        if self.active == id && self.mouse_released {
            self.active = 0;
        }
        (id, tracking)
    }

    /// A text area; `over` tells whether the pointer is over it. A press on it gives it the
    /// focus. While it has the focus, the characters typed since the last frame are appended
    /// to `text`, a backspace removes the last character, an enter appends a newline; the
    /// pending keys are then consumed.
    pub fn text_area(&mut self, over: bool, text: &mut String) -> (r: TextAreaResponse)
        requires
            old(self).id_gen < u64::MAX,
        ensures
            ({
                let id = old(self).id_gen;
                let grabbed = over && old(self).mouse_pressed && old(self).active == 0;
                let held = grabbed || old(self).active == id;
                let focused = if grabbed {
                    id
                } else {
                    old(self).focused
                };
                let active = if held && old(self).mouse_released {
                    0
                } else if grabbed {
                    id
                } else {
                    old(self).active
                };
                &&& r.id == id
                &&& if focused == id {
                    &&& old(self).key_backspace && !old(self).key_enter && old(text)@.len()
                        + old(self).input_chars@.len() > 0 ==> final(text)@ == (old(text)@ + old(
                        self,
                    ).input_chars@).drop_last()
                    &&& final(text)@ == edited(
                        old(text)@,
                        old(self).input_chars@,
                        old(self).key_backspace,
                        old(self).key_enter,
                    )
                    &&& r.modified == (old(self).input_chars@.len() > 0 || old(self).key_backspace
                        || old(self).key_delete || old(self).key_enter)
                    &&& final(self).input_chars@ == Seq::<char>::empty()
                    &&& *final(self) == (GuiContext {
                        id_gen: (id + 1) as u64,
                        active,
                        focused,
                        input_chars: final(self).input_chars,
                        key_backspace: false,
                        key_delete: false,
                        key_enter: false,
                        ..*old(self)
                    })
                } else {
                    &&& final(text)@ == old(text)@
                    &&& !r.modified
                    &&& *final(self) == (GuiContext {
                        id_gen: (id + 1) as u64,
                        active,
                        focused,
                        ..*old(self)
                    })
                }
            }),
    {
        let id = self.gen_id();
        if over && self.mouse_pressed && self.active == 0 {
            self.active = id;
            self.focused = id;
        }
        if self.active == id && self.mouse_released {
            self.active = 0;
        }
        let mut modified = false;
        if self.focused == id {
            let n = self.input_chars.len();
            let ghost start = text@;
            let ghost s0 = *self;
            for i in 0..n
                invariant
                    n == self.input_chars@.len(),
                    text@ == start + self.input_chars@.take(i as int),
                    modified == (i > 0),
                    *self == s0,
            {
                push_char(text, self.input_chars[i]);
                assert(self.input_chars@.take(i + 1) =~= self.input_chars@.take(i as int).push(
                    self.input_chars@[i as int],
                ));
                modified = true;
            }
            assert(self.input_chars@.take(n as int) =~= self.input_chars@);
            self.input_chars.clear();
            if self.key_backspace {
                pop_char(text);
                self.key_backspace = false;
                modified = true;
            }
            if self.key_delete {
                self.key_delete = false;
                modified = true;
            }
            if self.key_enter {
                push_char(text, '\n');
                self.key_enter = false;
                modified = true;
            }
        }
        TextAreaResponse { id, modified }
    }

    /// Whether some widget is hot or active, so the mouse belongs to the interface.
    pub fn item_wants_mouse(&self) -> (r: bool)
        ensures
            r == (self.hot != 0 || self.active != 0),
    {
        self.hot != 0 || self.active != 0
    }

    /// Whether a widget is being held.
    pub fn is_active(&self) -> (r: bool)
        ensures
            r == (self.active != 0),
    {
        self.active != 0
    }

    /// Whether a text area has the focus.
    pub fn is_focused(&self) -> (r: bool)
        ensures
            r == (self.focused != 0),
    {
        self.focused != 0
    }
}

} // verus!
