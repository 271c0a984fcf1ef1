use std::collections::HashMap;
use vstd::prelude::*;
use vstd::std_specs::iter::IteratorSpec;

use crate::seqs::{not_id, retain_ne};
use crate::text::{decimal, push_decimal, push_str};

verus! {

/// Identifier of an element on the board.
pub type Id = u64;

/// A text card on the board. `frame` is where it is drawn; the board never reads it.
#[derive(Clone)]
pub struct NodeData<F> {
    pub id: Id,
    pub text: String,
    pub frame: F,
}

/// A frame that holds other elements; moving it moves its children.
#[derive(Clone)]
pub struct GroupData<F> {
    pub id: Id,
    pub frame: F,
    pub children: Vec<Id>,
}

/// An element of the board.
#[derive(Clone)]
pub enum Item<F> {
    Node(NodeData<F>),
    Group(GroupData<F>),
}

/// What an element is, as a mathematical value.
pub enum ItemView<F> {
    Node { id: Id, text: Seq<char>, frame: F },
    Group { id: Id, frame: F, children: Seq<Id> },
}

impl<F> ItemView<F> {
    pub open spec fn id(self) -> Id {
        match self {
            ItemView::Node { id, .. } => id,
            ItemView::Group { id, .. } => id,
        }
    }

    pub open spec fn is_group(self) -> bool {
        self is Group
    }

    /// The element with every occurrence of `x` dropped from its children.
    pub open spec fn without_child(self, x: Id) -> ItemView<F> {
        match self {
            ItemView::Node { .. } => self,
            ItemView::Group { id, frame, children } => ItemView::Group {
                id,
                frame,
                children: children.filter(not_id(x)),
            },
        }
    }

    /// The element with `x` appended to its children (a node is left as it is).
    pub open spec fn with_child(self, x: Id) -> ItemView<F> {
        match self {
            ItemView::Node { .. } => self,
            ItemView::Group { id, frame, children } => ItemView::Group {
                id,
                frame,
                children: children.push(x),
            },
        }
    }
}

impl<F> View for Item<F> {
    type V = ItemView<F>;

    open spec fn view(&self) -> ItemView<F> {
        match self {
            Item::Node(n) => ItemView::Node { id: n.id, text: n.text@, frame: n.frame },
            Item::Group(g) => ItemView::Group { id: g.id, frame: g.frame, children: g.children@ },
        }
    }
}

impl<F> Item<F> {
    /// The element's own identifier.
    pub fn id(&self) -> (r: Id)
        ensures
            r == self@.id(),
    {
        match self {
            Item::Node(n) => n.id,
            Item::Group(g) => g.id,
        }
    }

    /// Replaces where the element is drawn, leaving everything else as it was.
    pub fn set_frame(&mut self, frame: F)
        ensures
            final(self)@ == (match old(self)@ {
                ItemView::Node { id, text, .. } => ItemView::Node { id, text, frame },
                ItemView::Group { id, children, .. } => ItemView::Group { id, frame, children },
            }),
    {
        match self {
            Item::Node(n) => {
                n.frame = frame;
            },
            Item::Group(g) => {
                g.frame = frame;
            },
        }
    }
}

/// The elements that a move of `id` reaches, walking at most `fuel` levels deep: `id` itself
/// when it is on the board, then, for a group, what each child reaches, child after child.
pub open spec fn visits<F>(items: Map<Id, ItemView<F>>, id: Id, fuel: nat) -> Seq<Id>
    decreases fuel, 0nat,
{
    if fuel == 0 || !items.contains_key(id) {
        Seq::empty()
    } else {
        match items[id] {
            ItemView::Group { children, .. } => seq![id] + visits_all(
                items,
                children,
                (fuel - 1) as nat,
            ),
            ItemView::Node { .. } => seq![id],
        }
    }
}

/// What a move reaches from each of `cs`, in turn.
pub open spec fn visits_all<F>(items: Map<Id, ItemView<F>>, cs: Seq<Id>, fuel: nat) -> Seq<Id>
    decreases fuel, cs.len() + 1,
{
    if cs.len() == 0 {
        Seq::empty()
    } else {
        visits_all(items, cs.drop_last(), fuel) + visits(items, cs.last(), fuel)
    }
}

/// Filtering by "differs from `x`" leaves no `x`.
pub proof fn lemma_filter_drops(s: Seq<u64>, pred: spec_fn(u64) -> bool, x: u64)
    requires
        pred == not_id(x),
    ensures
        !s.filter(pred).contains(x),
{
    broadcast use vstd::seq_lib::group_filter_ensures;

    if s.filter(pred).contains(x) {
        let i = choose|i: int| 0 <= i < s.filter(pred).len() && s.filter(pred)[i] == x;
        assert(pred(s.filter(pred)[i]));
    }
}

/// Every element kept by a filter satisfies its predicate.
pub proof fn lemma_filter_keeps_pred<A>(s: Seq<A>, pred: spec_fn(A) -> bool)
    ensures
        forall|i: int| 0 <= i < s.filter(pred).len() ==> pred(#[trigger] s.filter(pred)[i]),
{
    broadcast use vstd::seq_lib::group_filter_ensures;

}

/// Every element kept by a filter was in the sequence.
pub proof fn lemma_filter_subset<A>(s: Seq<A>, pred: spec_fn(A) -> bool)
    ensures
        forall|i: int|
            0 <= i < s.filter(pred).len() ==> s.contains(#[trigger] s.filter(pred)[i]),
    decreases s.len(),
{
    reveal(Seq::filter);
    if s.len() > 0 {
        lemma_filter_subset(s.drop_last(), pred);
        let t = s.drop_last().filter(pred);
        assert forall|i: int| 0 <= i < s.filter(pred).len() implies s.contains(
            #[trigger] s.filter(pred)[i],
        ) by {
            if i < t.len() {
                assert(t.contains(t[i]));
                let j = choose|j: int| 0 <= j < s.drop_last().len() && s.drop_last()[j] == t[i];
                assert(s[j] == t[i]);
            } else {
                assert(s[s.len() - 1] == s.last());
            }
        }
    }
}

/// How the side panel names an element: `Node <id>: <text>` or
/// `Group <id> (<number of children> children)`.
pub open spec fn label_of<F>(v: ItemView<F>) -> Seq<char> {
    match v {
        ItemView::Node { id, text, .. } => "Node "@ + decimal(id as nat) + ": "@ + text,
        ItemView::Group { id, children, .. } => "Group "@ + decimal(id as nat) + " ("@ + decimal(
            children.len(),
        ) + " children)"@,
    }
}

/// A directed link between two elements of the board.
#[derive(Clone, Copy, Debug, PartialEq, Eq, Structural)]
pub struct Connection {
    pub from: Id,
    pub to: Id,
}

impl Connection {
    /// Whether the connection has `id` at one of its ends.
    pub open spec fn touches_spec(self, id: Id) -> bool {
        self.from == id || self.to == id
    }
}

/// The predicate "has no end at `id`" on connections.
pub open spec fn avoids(id: Id) -> spec_fn(Connection) -> bool {
    |c: Connection| !c.touches_spec(id)
}

/// The contents of a map of elements, as values.
pub open spec fn items_of<F>(m: Map<Id, Item<F>>) -> Map<Id, ItemView<F>> {
    m.map_values(|i: Item<F>| i@)
}

/// What is saved of a whiteboard: its elements, their drawing order, the connections and
/// the next id to hand out.
pub struct WhiteboardData<F> {
    pub elements: HashMap<Id, Item<F>>,
    pub order: Vec<Id>,
    pub connections: Vec<Connection>,
    pub next_id: Id,
}

/// The editable state of a whiteboard: its elements and the editor's selection state.
/// `F` is the frame type that says where an element is drawn; the board carries it along.
pub struct Whiteboard<F> {
    pub elements: HashMap<Id, Item<F>>,
    pub order: Vec<Id>,
    pub connections: Vec<Connection>,
    pub next_id: Id,
    pub selected: Option<Id>,
    /// The element being dragged.
    pub drag: Option<Id>,
    /// Whether the view is being panned.
    pub panning: bool,
    pub connection_source: Option<Id>,
    pub connection_mode: bool,
    /// The text held by the side editor, when it is open.
    pub edit_content: Option<String>,
    /// The element being resized.
    pub resize: Option<Id>,
    pub selected_connection: Option<usize>,
    pub current_path: Option<String>,
}

impl<F> Whiteboard<F> {
    /// The elements, as values.
    pub open spec fn items(&self) -> Map<Id, ItemView<F>> {
        items_of(self.elements@)
    }

    /// Every element is stored under its own id, and every id is below the next one to be
    /// handed out, so a new element never replaces an old one.
    pub open spec fn well_keyed(&self) -> bool {
        forall|k: Id| #[trigger]
            self.items().contains_key(k) ==> self.items()[k].id() == k && k < self.next_id
    }

    /// The selected connection, if any, is one of the board's connections.
    pub open spec fn selection_in_range(&self) -> bool {
        self.selected_connection matches Some(i) ==> i < self.connections@.len()
    }

    /// No connection joins an element to itself.
    pub open spec fn no_self_loops(&self) -> bool {
        forall|i: int|
            0 <= i < self.connections@.len() ==> #[trigger] self.connections@[i].from
                != self.connections@[i].to
    }

    /// Everything but the elements, order, connections and id counter is as `other` has it.
    pub open spec fn same_editor_state(&self, other: &Self) -> bool {
        &&& self.selected == other.selected
        &&& self.drag == other.drag
        &&& self.panning == other.panning
        &&& self.connection_source == other.connection_source
        &&& self.connection_mode == other.connection_mode
        &&& self.edit_content == other.edit_content
        &&& self.resize == other.resize
        &&& self.selected_connection == other.selected_connection
        &&& self.current_path == other.current_path
    }

    /// Whether the board is empty, with nothing selected and no tool in use.
    pub open spec fn is_fresh(&self) -> bool {
        &&& self.items() == Map::<Id, ItemView<F>>::empty()
        &&& self.order@ == Seq::<Id>::empty()
        &&& self.connections@ == Seq::<Connection>::empty()
        &&& self.next_id == 0
        &&& self.selected is None
        &&& self.drag is None
        &&& !self.panning
        &&& self.connection_source is None
        &&& !self.connection_mode
        &&& self.edit_content is None
        &&& self.resize is None
        &&& self.selected_connection is None
        &&& self.current_path is None
    }

    /// An empty board with nothing selected.
    pub fn new() -> (r: Self)
        ensures
            r.is_fresh(),
            r.items() == Map::<Id, ItemView<F>>::empty(),
            r.order@ == Seq::<Id>::empty(),
            r.connections@ == Seq::<Connection>::empty(),
            r.next_id == 0,
            r.selected is None,
            r.drag is None,
            !r.panning,
            r.connection_source is None,
            !r.connection_mode,
            r.edit_content is None,
            r.resize is None,
            r.selected_connection is None,
            r.current_path is None,
    {
        let r = Whiteboard {
            elements: HashMap::new(),
            order: Vec::new(),
            connections: Vec::new(),
            next_id: 0,
            selected: None,
            drag: None,
            panning: false,
            connection_source: None,
            connection_mode: false,
            edit_content: None,
            resize: None,
            selected_connection: None,
            current_path: None,
        };
        assert(r.items() =~= Map::<Id, ItemView<F>>::empty());
        r
    }

    /// The part of the board that is saved.
    pub fn to_data(&self) -> (d: WhiteboardData<F>)
        where F: Clone,
        ensures
            d.elements@ == self.elements@,
            d.order@ == self.order@,
            d.connections@ == self.connections@,
            d.next_id == self.next_id,
    {
        let order = self.order.clone();
        let connections = self.connections.clone();
        assert(order@ =~= self.order@);
        assert(connections@ =~= self.connections@);
        WhiteboardData {
            elements: self.elements.clone(),
            order,
            connections,
            next_id: self.next_id,
        }
    }

    /// A board holding the saved `data`, with nothing selected and no tool in use.
    pub fn from_data(data: WhiteboardData<F>) -> (r: Self)
        ensures
            r.elements@ == data.elements@,
            r.order@ == data.order@,
            r.connections@ == data.connections@,
            r.next_id == data.next_id,
            r.selected is None,
            r.drag is None,
            !r.panning,
            r.connection_source is None,
            !r.connection_mode,
            r.edit_content is None,
            r.resize is None,
            r.selected_connection is None,
            r.current_path is None,
    {
        Whiteboard {
            elements: data.elements,
            order: data.order,
            connections: data.connections,
            next_id: data.next_id,
            selected: None,
            drag: None,
            panning: false,
            connection_source: None,
            connection_mode: false,
            edit_content: None,
            resize: None,
            selected_connection: None,
            current_path: None,
        }
    }

    /// Adds `item` under a fresh id and puts it on top of the drawing order.
    fn add_item(&mut self, item: Item<F>)
        requires
            old(self).next_id < u64::MAX,
            item@.id() == old(self).next_id,
        ensures
            final(self).items() == old(self).items().insert(old(self).next_id, item@),
            final(self).order@ == old(self).order@.push(old(self).next_id),
            final(self).next_id == old(self).next_id + 1,
            final(self).connections == old(self).connections,
            final(self).same_editor_state(old(self)),
    {
        let id = self.next_id;
        self.next_id = self.next_id + 1;
        self.elements.insert(id, item);
        self.order.push(id);
        assert(self.items() =~= items_of(old(self).elements@).insert(id, item@));
    }

    /// Adds a node with `text` drawn at `frame`, and returns its id.
    pub fn add_node(&mut self, text: String, frame: F) -> (id: Id)
        requires
            old(self).next_id < u64::MAX,
        ensures
            id == old(self).next_id,
            final(self).items() == old(self).items().insert(
                id,
                ItemView::Node { id, text: text@, frame },
            ),
            final(self).order@ == old(self).order@.push(id),
            final(self).next_id == id + 1,
            final(self).connections == old(self).connections,
            final(self).same_editor_state(old(self)),
            old(self).well_keyed() ==> final(self).well_keyed() && !old(self).items().contains_key(
                id,
            ),
    {
        let id = self.next_id;
        self.add_item(Item::Node(NodeData { id, text, frame }));
        id
    }

    /// Adds an empty group drawn at `frame`, and returns its id.
    pub fn add_group(&mut self, frame: F) -> (id: Id)
        requires
            old(self).next_id < u64::MAX,
        ensures
            id == old(self).next_id,
            final(self).items() == old(self).items().insert(
                id,
                ItemView::Group { id, frame, children: Seq::empty() },
            ),
            final(self).order@ == old(self).order@.push(id),
            final(self).next_id == id + 1,
            final(self).connections == old(self).connections,
            final(self).same_editor_state(old(self)),
            old(self).well_keyed() ==> final(self).well_keyed() && !old(self).items().contains_key(
                id,
            ),
    {
        let id = self.next_id;
        self.add_item(Item::Group(GroupData { id, frame, children: Vec::new() }));
        id
    }

    /// Appends `child_id` to the children of `group_id`, when that element is a group.
    pub fn add_child_to_group(&mut self, group_id: Id, child_id: Id)
        ensures
            final(self).items() == (if old(self).items().contains_key(group_id)
                && old(self).items()[group_id].is_group() {
                old(self).items().insert(group_id, old(self).items()[group_id].with_child(child_id))
            } else {
                old(self).items()
            }),
            final(self).order == old(self).order,
            final(self).connections == old(self).connections,
            final(self).next_id == old(self).next_id,
            final(self).same_editor_state(old(self)),
    {
        if let Some(item) = self.elements.remove(&group_id) {
            match item {
                Item::Group(mut g) => {
                    g.children.push(child_id);
                    self.elements.insert(group_id, Item::Group(g));
                    assert(self.items() =~= old(self).items().insert(
                        group_id,
                        old(self).items()[group_id].with_child(child_id),
                    ));
                },
                Item::Node(n) => {
                    self.elements.insert(group_id, Item::Node(n));
                    assert(self.items() =~= old(self).items());
                },
            }
        }
    }

    /// Drops every occurrence of `child_id` from the children of `group_id`, when that
    /// element is a group.
    pub fn remove_child_from_group(&mut self, group_id: Id, child_id: Id)
        ensures
            final(self).items() == (if old(self).items().contains_key(group_id) {
                old(self).items().insert(
                    group_id,
                    old(self).items()[group_id].without_child(child_id),
                )
            } else {
                old(self).items()
            }),
            final(self).order == old(self).order,
            final(self).connections == old(self).connections,
            final(self).next_id == old(self).next_id,
            final(self).same_editor_state(old(self)),
    {
        if let Some(item) = self.elements.remove(&group_id) {
            match item {
                Item::Group(mut g) => {
                    retain_ne(&mut g.children, child_id);
                    self.elements.insert(group_id, Item::Group(g));
                },
                Item::Node(n) => {
                    self.elements.insert(group_id, Item::Node(n));
                },
            }
            assert(self.items() =~= old(self).items().insert(
                group_id,
                old(self).items()[group_id].without_child(child_id),
            ));
        }
    }

    /// How the side panel names the selected element, when one is selected and on the board.
    pub fn selection_label(&self) -> (r: Option<String>)
        ensures
            match self.selected {
                Some(id) if self.items().contains_key(id) => r matches Some(l) && l@ == label_of(
                    self.items()[id],
                ),
                _ => r is None,
            },
    {
        let id = match self.selected {
            Some(id) => id,
            None => return None,
        };
        match self.elements.get(&id) {
            Some(Item::Node(n)) => {
                let mut s = String::new();
                push_str(&mut s, "Node ");
                push_decimal(&mut s, n.id);
                push_str(&mut s, ": ");
                push_str(&mut s, n.text.as_str());
                Some(s)
            },
            Some(Item::Group(g)) => {
                let mut s = String::new();
                push_str(&mut s, "Group ");
                push_decimal(&mut s, g.id);
                push_str(&mut s, " (");
                push_decimal(&mut s, g.children.len() as u64);
                push_str(&mut s, " children)");
                Some(s)
            },
            None => None,
        }
    }

    /// The ids of all elements, each once.
    pub fn element_ids(&self) -> (ids: Vec<Id>)
        ensures
            ids@.to_set() == self.elements@.dom(),
            ids@.no_duplicates(),
    {
        let mut ids: Vec<Id> = Vec::new();
        for k in it: self.elements.keys()
            invariant
                it.seq().unref().to_set() == self.elements@.dom(),
                it.seq().no_duplicates(),
                ids@ == it.seq().take(it.index() as int).unref(),
                it.index() == it.seq().len() ==> ids@.to_set() == self.elements@.dom(),
        {
            proof {
                let s = it.seq();
                assert(s.take(it.index() + 1).unref() =~= s.take(it.index() as int).unref().push(*k));
                assert(s.take(s.len() as int) =~= s);
            }
            ids.push(*k);
        }
        ids
    }

    /// Whether position `i` of the drawing order holds an element of the board, of the wanted
    /// kind, that the pointer is over according to `hits`.
    pub open spec fn hit_at(&self, hits: Seq<bool>, i: int, group: bool) -> bool {
        &&& hits[i]
        &&& self.items().contains_key(self.order@[i])
        &&& self.items()[self.order@[i]].is_group() == group
    }

    /// The highest position below `n` that `hit_at` holds for.
    pub open spec fn last_hit(&self, hits: Seq<bool>, group: bool, n: int) -> Option<int>
        decreases n,
    {
        if n <= 0 {
            None
        } else if self.hit_at(hits, n - 1, group) {
            Some(n - 1)
        } else {
            self.last_hit(hits, group, n - 1)
        }
    }

    /// The element under the pointer: the topmost node that is hit, else the topmost group.
    pub open spec fn pick(&self, hits: Seq<bool>) -> Option<Id> {
        match self.last_hit(hits, false, self.order@.len() as int) {
            Some(i) => Some(self.order@[i]),
            None => match self.last_hit(hits, true, self.order@.len() as int) {
                Some(i) => Some(self.order@[i]),
                None => None,
            },
        }
    }

    /// The element under the pointer. `hits[i]` tells whether the pointer is inside the
    /// element at position `i` of the drawing order. Nodes take precedence over groups;
    /// among elements of the same kind the one drawn last (topmost) wins.
    pub fn find_element_at(&self, hits: &Vec<bool>) -> (r: Option<Id>)
        requires
            hits@.len() == self.order@.len(),
        ensures
            r == self.pick(hits@),
    {
        let n = self.order.len();
        let mut fallback: Option<Id> = None;
        let mut i = n;
        while i > 0
            invariant
                i <= n == self.order@.len() == hits@.len(),
                self.last_hit(hits@, false, n as int) == self.last_hit(hits@, false, i as int),
                fallback is None ==> self.last_hit(hits@, true, n as int) == self.last_hit(
                    hits@,
                    true,
                    i as int,
                ),
                fallback is Some ==> self.last_hit(hits@, true, n as int) is Some && fallback
                    == Some(self.order@[self.last_hit(hits@, true, n as int)->0]),
            decreases i,
        {
            let id = self.order[i - 1];
            if hits[i - 1] {
                match self.elements.get(&id) {
                    Some(Item::Node(_)) => {
                        assert(self.hit_at(hits@, i - 1, false));
                        return Some(id);
                    },
                    Some(Item::Group(_)) => {
                        assert(self.hit_at(hits@, i - 1, true));
                        if fallback.is_none() {
                            fallback = Some(id);
                        }
                    },
                    None => {},
                }
            }
            i = i - 1;
        }
        fallback
    }

    /// Whether connection `i` has both ends on the board and `near` marks it.
    pub open spec fn near_at(&self, near: Seq<bool>, i: int) -> bool {
        &&& near[i]
        &&& self.items().contains_key(self.connections@[i].from)
        &&& self.items().contains_key(self.connections@[i].to)
    }

    /// The first position, from `i` on, of a connection that `near_at` holds for.
    pub open spec fn first_near_from(&self, near: Seq<bool>, i: int) -> Option<int>
        decreases self.connections@.len() - i,
    {
        if i < 0 || i >= self.connections@.len() {
            None
        } else if self.near_at(near, i) {
            Some(i)
        } else {
            self.first_near_from(near, i + 1)
        }
    }

    /// The first connection that `near_at` holds for.
    pub open spec fn first_near(&self, near: Seq<bool>) -> Option<int> {
        self.first_near_from(near, 0)
    }

    /// What `first_near_from` finds is a connection, from `i` on, that `near_at` holds for.
    pub proof fn lemma_first_near_from(&self, near: Seq<bool>, i: int)
        ensures
            self.first_near_from(near, i) matches Some(k) ==> 0 <= i <= k
                < self.connections@.len() && self.near_at(near, k),
        decreases self.connections@.len() - i,
    {
        if 0 <= i < self.connections@.len() {
            self.lemma_first_near_from(near, i + 1);
        }
    }

    /// The first connection whose two ends are on the board and that `near` marks as under
    /// the pointer (`near[i]` is about connection `i`).
    pub fn find_connection_at(&self, near: &Vec<bool>) -> (r: Option<usize>)
        requires
            near@.len() == self.connections@.len(),
        ensures
            match r {
                Some(i) => self.first_near(near@) == Some(i as int),
                None => self.first_near(near@) is None,
            },
    {
        let n = self.connections.len();
        for i in 0..n
            invariant
                n == self.connections@.len() == near@.len(),
                self.first_near(near@) == self.first_near_from(near@, i as int),
        {
            let c = self.connections[i];
            if near[i] && self.elements.contains_key(&c.from) && self.elements.contains_key(&c.to) {
                return Some(i);
            }
        }
        None
    }

    /// Appends to `out` what a move of `id` reaches within `fuel` levels.
    fn collect_moves(&self, id: Id, fuel: usize, out: &mut Vec<Id>)
        ensures
            final(out)@ == old(out)@ + visits(self.items(), id, fuel as nat),
        decreases fuel,
    {
        if fuel == 0 {
            assert(old(out)@ + visits(self.items(), id, fuel as nat) =~= old(out)@);
            return;
        }
        match self.elements.get(&id) {
            None => {
                assert(old(out)@ + visits(self.items(), id, fuel as nat) =~= old(out)@);
            },
            Some(Item::Node(_)) => {
                out.push(id);
            },
            Some(Item::Group(g)) => {
                out.push(id);
                let ghost start = out@;
                let ghost items = self.items();
                let m = g.children.len();
                for j in 0..m
                    invariant
                        m == g.children@.len(),
                        out@ == start + visits_all(items, g.children@.take(j as int), (fuel - 1) as nat),
                        items == self.items(),
                        fuel > 0,
                {
                    proof {
                        let t = g.children@.take(j + 1);
                        assert(t.drop_last() =~= g.children@.take(j as int));
                        assert(t.last() == g.children@[j as int]);
                    }
                    self.collect_moves(g.children[j], fuel - 1, out);
                    proof {
                        assert(start + visits_all(items, g.children@.take(j as int), (fuel - 1) as nat)
                            + visits(items, g.children@[j as int], (fuel - 1) as nat) =~= start
                            + visits_all(items, g.children@.take(j + 1), (fuel - 1) as nat));
                    }
                }
                proof {
                    assert(g.children@.take(m as int) =~= g.children@);
                    assert(items[id] == Item::Group(*g)@);
                    assert(start =~= old(out)@ + seq![id]);
                }
            },
        }
    }

    /// The elements that moving `id` shifts, in the order the move reaches them: `id` itself,
    /// then, for a group, what each of its children brings along, child after child. An
    /// element reached along several paths is listed once per path, as it is shifted once per
    /// path. The walk goes at most as many levels deep as there are elements; on a board whose
    /// groups contain one another in a cycle it stops there.
    pub fn move_element(&self, id: Id) -> (moved: Vec<Id>)
        ensures
            moved@ == visits(self.items(), id, self.elements@.len()),
    {
        let mut out: Vec<Id> = Vec::new();
        self.collect_moves(id, self.elements.len(), &mut out);
        assert(out@ =~= visits(self.items(), id, self.elements@.len()));
        out
    }

    /// Drops every connection that has an end at `id`, keeping the others in order.
    fn drop_connections_of(&mut self, id: Id)
        ensures
            final(self).connections@ == old(self).connections@.filter(avoids(id)),
            final(self).elements == old(self).elements,
            final(self).order == old(self).order,
            final(self).next_id == old(self).next_id,
            final(self).same_editor_state(old(self)),
    {
        let mut kept: Vec<Connection> = Vec::new();
        let n = self.connections.len();
        for i in 0..n
            invariant
                n == self.connections.len(),
                kept@ == self.connections@.take(i as int).filter(avoids(id)),
        {
            proof {
                reveal_with_fuel(Seq::filter, 1);
                assert(self.connections@.take(i + 1).drop_last() =~= self.connections@.take(
                    i as int,
                ));
            }
            let c = self.connections[i];
            if c.from != id && c.to != id {
                kept.push(c);
            }
        }
        proof {
            assert(self.connections@.take(n as int) =~= self.connections@);
        }
        self.connections = kept;
    }

    /// Removes the element `id` and every reference to it: its place in the drawing order,
    /// the connections that touch it, and its membership in groups. When it was the
    /// selected element, the selection and the side editor are cleared.
    pub fn delete_element(&mut self, id: Id)
        ensures
            final(self).order@ == old(self).order@.filter(not_id(id)),
            final(self).items() == old(self).items().remove(id).map_values(
                |v: ItemView<F>| v.without_child(id),
            ),
            final(self).connections@ == old(self).connections@.filter(avoids(id)),
            final(self).next_id == old(self).next_id,
            old(self).selected == Some(id) ==> final(self).selected is None
                && final(self).edit_content is None,
            old(self).selected != Some(id) ==> final(self).selected == old(self).selected
                && final(self).edit_content == old(self).edit_content,
            final(self).drag == old(self).drag,
            final(self).panning == old(self).panning,
            final(self).connection_source == old(self).connection_source,
            final(self).connection_mode == old(self).connection_mode,
            final(self).resize == old(self).resize,
            final(self).selected_connection == old(self).selected_connection,
            final(self).current_path == old(self).current_path,
            !final(self).items().contains_key(id),
            !final(self).order@.contains(id),
            forall|i: int|
                0 <= i < final(self).connections@.len() ==> !(
                #[trigger] final(self).connections@[i]).touches_spec(id),
            forall|k: Id|
                #[trigger] final(self).items().contains_key(k) && final(self).items()[k].is_group()
                    ==> !final(self).items()[k]->Group_children.contains(id),
            old(self).well_keyed() ==> final(self).well_keyed(),
            old(self).no_self_loops() ==> final(self).no_self_loops(),
    {
        retain_ne(&mut self.order, id);
        let ghost before = self.items();
        self.elements.remove(&id);
        assert(self.items() =~= before.remove(id));
        self.drop_connections_of(id);
        self.drop_child_everywhere(id);
        if self.selected == Some(id) {
            self.selected = None;
            self.edit_content = None;
        }
        proof {
            lemma_filter_drops(old(self).order@, not_id(id), id);
            lemma_filter_keeps_pred(old(self).connections@, avoids(id));
            lemma_filter_subset(old(self).connections@, avoids(id));
            assert forall|k: Id|
                #[trigger] self.items().contains_key(k) && self.items()[k].is_group()
                    implies !self.items()[k]->Group_children.contains(id) by {
                let ch = old(self).items()[k]->Group_children;
                lemma_filter_drops(ch, not_id(id), id);
            }
        }
    }

    /// Drops every occurrence of `x` from the children of every group.
    pub(crate) fn drop_child_everywhere(&mut self, x: Id)
        ensures
            final(self).items() == old(self).items().map_values(|v: ItemView<F>| v.without_child(x)),
            final(self).order == old(self).order,
            final(self).connections == old(self).connections,
            final(self).next_id == old(self).next_id,
            final(self).same_editor_state(old(self)),
    {
        let ids = self.element_ids();
        let ghost old_items = old(self).items();
        let n = ids.len();
        for i in 0..n
            invariant
                n == ids@.len(),
                ids@.to_set() == old(self).elements@.dom(),
                ids@.no_duplicates(),
                old_items == old(self).items(),
                self.elements@.dom() == old(self).elements@.dom(),
                forall|k: Id|
                    #![trigger self.items()[k]]
                    self.elements@.dom().contains(k) ==> self.items()[k] == (if ids@.take(
                        i as int,
                    ).contains(k) {
                        old_items[k].without_child(x)
                    } else {
                        old_items[k]
                    }),
                self.order == old(self).order,
                self.connections == old(self).connections,
                self.next_id == old(self).next_id,
                self.same_editor_state(old(self)),
        {
            let k = ids[i];
            proof {
                assert(ids@.to_set().contains(k));
                assert(ids@.take(i + 1) =~= ids@.take(i as int).push(k));
                assert(!ids@.take(i as int).contains(k)) by {
                    if ids@.take(i as int).contains(k) {
                        let p = choose|p: int|
                            0 <= p < i && #[trigger] ids@.take(i as int)[p] == k;
                        assert(ids@[p] == ids@[i as int]);
                    }
                }
            }
            let ghost before = self.items();
            assert(self.elements@.dom().contains(k));
            assert(self.items()[k] == old_items[k]);
            let ghost before_elems = self.elements@;
            if let Some(item) = self.elements.remove(&k) {
                assert(item@ == old_items[k]);
                match item {
                    Item::Group(mut g) => {
                        retain_ne(&mut g.children, x);
                        let ni = Item::Group(g);
                        assert(ni@ == old_items[k].without_child(x));
                        self.elements.insert(k, ni);
                    },
                    Item::Node(nd) => {
                        let ni = Item::Node(nd);
                        assert(ni@ == old_items[k].without_child(x));
                        self.elements.insert(k, ni);
                    },
                }
                assert(self.items() =~= before.insert(k, old_items[k].without_child(x)));
            }
            assert forall|j: Id| self.elements@.dom().contains(j) implies #[trigger] self.items()[j]
                == (if ids@.take(i + 1).contains(j) {
                old_items[j].without_child(x)
            } else {
                old_items[j]
            }) by {
                if j != k {
                    assert(before[j] == self.items()[j]);
                    assert(ids@.take(i + 1).contains(j) == ids@.take(i as int).contains(j));
                } else {
                    assert(ids@.take(i + 1)[i as int] == j);
                }
            }
        }
        proof {
            assert(ids@.take(n as int) =~= ids@);
            assert(self.items() =~= old(self).items().map_values(
                |v: ItemView<F>| v.without_child(x),
            ));
        }
    }
}

} // verus!
