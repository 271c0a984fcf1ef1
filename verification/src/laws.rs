use vstd::prelude::*;

use crate::board::{avoids, visits, visits_all, Connection, Id, ItemView, Whiteboard};
use crate::editor::{landing, lands_at, regrouped, lemma_landing};
use crate::plot::{axis_plan, lemma_run, AxisLine};
use crate::demo::{demo_drawing, CanvasCommand};
use crate::gui::edited;
use crate::seqs::not_id;
use crate::text::{chunks, wrap_all, wrapped, text_lines};

verus! {

/// A filter that keeps every element gives the sequence back.
pub proof fn lemma_filter_all<A>(s: Seq<A>, pred: spec_fn(A) -> bool)
    requires
        forall|i: int| 0 <= i < s.len() ==> pred(#[trigger] s[i]),
    ensures
        s.filter(pred) == s,
    decreases s.len(),
{
    reveal(Seq::filter);
    if s.len() > 0 {
        lemma_filter_all(s.drop_last(), pred);
        assert(s.drop_last().push(s.last()) =~= s);
    }
}

/// Adding an element and then deleting it gives back the elements, the drawing order and
/// the connections the board had, provided nothing referred to the new id before.
/// `mid` is the board after the addition and `post` the board after the deletion, each as
/// `add_node`/`add_group` and `delete_element` describe them.
pub proof fn law_delete_undoes_add<F>(
    pre: Whiteboard<F>,
    mid: Whiteboard<F>,
    post: Whiteboard<F>,
    id: Id,
    v: ItemView<F>,
)
    requires
        !pre.items().contains_key(id),
        !pre.order@.contains(id),
        forall|i: int|
            0 <= i < pre.connections@.len() ==> !(#[trigger] pre.connections@[i]).touches_spec(
                id,
            ),
        forall|k: Id|
            #[trigger] pre.items().contains_key(k) && pre.items()[k].is_group()
                ==> !pre.items()[k]->Group_children.contains(id),
        mid.items() == pre.items().insert(id, v),
        mid.order@ == pre.order@.push(id),
        mid.connections == pre.connections,
        post.items() == mid.items().remove(id).map_values(|x: ItemView<F>| x.without_child(id)),
        post.order@ == mid.order@.filter(not_id(id)),
        post.connections@ == mid.connections@.filter(avoids(id)),
    ensures
        post.items() == pre.items(),
        post.order@ == pre.order@,
        post.connections@ == pre.connections@,
{
    reveal(Seq::filter);
    let o = pre.order@;
    assert(o.push(id).drop_last() =~= o);
    assert forall|i: int| 0 <= i < o.len() implies (not_id(id))(#[trigger] o[i]) by {
        assert(o.contains(o[i]));
    }
    lemma_filter_all(o, not_id(id));
    lemma_filter_all(pre.connections@, avoids(id));
    assert(mid.items().remove(id) =~= pre.items());
    assert forall|k: Id| #[trigger] pre.items().contains_key(k) implies pre.items()[k].without_child(id)
        == pre.items()[k] by {
        let x = pre.items()[k];
        if x.is_group() {
            let ch = x->Group_children;
            assert forall|i: int| 0 <= i < ch.len() implies (not_id(id))(#[trigger] ch[i]) by {
                assert(ch.contains(ch[i]));
            }
            lemma_filter_all(ch, not_id(id));
        }
    }
    assert(post.items() =~= pre.items());
}

/// When a drag ends, the dragged element belongs to no group but the one it landed in, and
/// that group is not among its own children: dragging never makes two groups hold each
/// other.
pub proof fn law_drag_end_single_parent<F>(
    items: Map<Id, ItemView<F>>,
    order: Seq<Id>,
    inside: Seq<bool>,
    id: Id,
)
    requires
        inside.len() == order.len(),
    ensures
        ({
            let r = regrouped(items, order, inside, id);
            let s = items.map_values(|v: ItemView<F>| v.without_child(id));
            let lj = landing(s, order, inside, id, 0);
            &&& forall|k: Id|
                #[trigger] r.contains_key(k) && r[k].is_group() && r[k]->Group_children.contains(id)
                    ==> (s.contains_key(id) && lj is Some && k == order[lj->0])
            &&& (s.contains_key(id) && lj is Some) ==> {
                &&& r[order[lj->0]]->Group_children.contains(id)
                &&& r[id].is_group() ==> !r[id]->Group_children.contains(order[lj->0])
            }
        }),
{
    let s = items.map_values(|v: ItemView<F>| v.without_child(id));
    let r = regrouped(items, order, inside, id);
    lemma_landing(s, order, inside, id, 0);
    assert forall|k: Id| #[trigger] s.contains_key(k) && s[k].is_group() implies !s[k]->Group_children.contains(
        id,
    ) by {
        crate::board::lemma_filter_drops(items[k]->Group_children, not_id(id), id);
    }
    if s.contains_key(id) {
        if let Some(j) = landing(s, order, inside, id, 0) {
            let g = order[j];
            let s2 = s.insert(id, s[id].without_child(g));
            assert(r == s2.insert(g, s2[g].with_child(id)));
            assert(r[g]->Group_children == s[g]->Group_children.push(id));
            assert(r[g]->Group_children.last() == id);
            if s[id].is_group() {
                crate::board::lemma_filter_drops(s[id]->Group_children, not_id(g), g);
                crate::board::lemma_filter_subset(s[id]->Group_children, not_id(g));
                assert(!s[id]->Group_children.contains(id));
                assert(!r[id]->Group_children.contains(id)) by {
                    let c = s[id]->Group_children.filter(not_id(g));
                    if c.contains(id) {
                        let i = choose|i: int| 0 <= i < c.len() && c[i] == id;
                        assert(s[id]->Group_children.contains(c[i]));
                    }
                }
            }
            assert forall|k: Id|
                #[trigger] r.contains_key(k) && r[k].is_group() && r[k]->Group_children.contains(id)
                    implies (s.contains_key(id) && landing(s, order, inside, id, 0) is Some && k
                    == order[landing(s, order, inside, id, 0)->0]) by {
                if k != g && k != id {
                    assert(r[k] == s[k]);
                }
            }
        }
    }
}

/// Saving a board and opening what was saved gives back its elements, drawing order,
/// connections and id counter. `d` is what `to_data` gives for `wb`, `r` what `from_data`
/// gives for `d`.
pub proof fn law_reload_keeps_board<F>(
    wb: Whiteboard<F>,
    d: crate::board::WhiteboardData<F>,
    r: Whiteboard<F>,
)
    requires
        d.elements@ == wb.elements@,
        d.order@ == wb.order@,
        d.connections@ == wb.connections@,
        d.next_id == wb.next_id,
        r.elements@ == d.elements@,
        r.order@ == d.order@,
        r.connections@ == d.connections@,
        r.next_id == d.next_id,
    ensures
        r.items() == wb.items(),
        r.order@ == wb.order@,
        r.connections@ == wb.connections@,
        r.next_id == wb.next_id,
        wb.well_keyed() ==> r.well_keyed(),
        wb.no_self_loops() ==> r.no_self_loops(),
{
    assert(r.items() == wb.items());
}

/// A ranking of the elements under which every child of a group ranks below the group:
/// groups then contain one another without cycles.
pub open spec fn ranked<F>(items: Map<Id, ItemView<F>>, rank: spec_fn(Id) -> nat) -> bool {
    forall|g: Id, c: Id|
        #![trigger items[g], items.contains_key(c)]
        items.contains_key(g) && items[g].is_group() && items[g]->Group_children.contains(c)
            && items.contains_key(c) ==> rank(c) < rank(g)
}

/// On a ranked board, the walk of a move does not change once its depth bound exceeds the
/// rank of where it starts.
pub proof fn lemma_visits_stable<F>(
    items: Map<Id, ItemView<F>>,
    rank: spec_fn(Id) -> nat,
    id: Id,
    f1: nat,
    f2: nat,
)
    requires
        ranked(items, rank),
        f1 <= f2,
        items.contains_key(id) ==> rank(id) < f1,
    ensures
        visits(items, id, f1) == visits(items, id, f2),
    decreases f1, 0nat,
{
    if items.contains_key(id) {
        if let ItemView::Group { children, .. } = items[id] {
            assert forall|i: int| 0 <= i < children.len() && items.contains_key(#[trigger] children[i])
                implies rank(children[i]) < (f1 - 1) as nat by {
                assert(children.contains(children[i]));
                assert(items[id].is_group());
            }
            lemma_visits_all_stable(items, rank, children, (f1 - 1) as nat, (f2 - 1) as nat);
        }
    }
}

/// The list form of `lemma_visits_stable`.
pub proof fn lemma_visits_all_stable<F>(
    items: Map<Id, ItemView<F>>,
    rank: spec_fn(Id) -> nat,
    cs: Seq<Id>,
    f1: nat,
    f2: nat,
)
    requires
        ranked(items, rank),
        f1 <= f2,
        forall|i: int|
            0 <= i < cs.len() && items.contains_key(#[trigger] cs[i]) ==> rank(cs[i]) < f1,
    ensures
        visits_all(items, cs, f1) == visits_all(items, cs, f2),
    decreases f1, cs.len() + 1,
{
    if cs.len() > 0 {
        assert forall|i: int|
            0 <= i < cs.drop_last().len() && items.contains_key(#[trigger] cs.drop_last()[i])
                implies rank(cs.drop_last()[i]) < f1 by {
            assert(cs.drop_last()[i] == cs[i]);
        }
        lemma_visits_all_stable(items, rank, cs.drop_last(), f1, f2);
        assert(cs.last() == cs[cs.len() - 1]);
        lemma_visits_stable(items, rank, cs.last(), f1, f2);
    }
}

/// On a board whose groups contain one another without cycles (some ranking puts every
/// child below its group, and every rank below the number of elements), the walk that
/// `move_element` makes is complete: a deeper bound lists exactly the same elements.
pub proof fn law_move_is_complete<F>(
    items: Map<Id, ItemView<F>>,
    rank: spec_fn(Id) -> nat,
    id: Id,
    deeper: nat,
)
    requires
        ranked(items, rank),
        forall|k: Id| #[trigger] items.contains_key(k) ==> rank(k) < items.len(),
        deeper >= items.len(),
    ensures
        visits(items, id, items.len()) == visits(items, id, deeper),
{
    lemma_visits_stable(items, rank, id, items.len(), deeper);
}

/// Cutting a line into pieces of `m` characters loses no character, keeps every piece
/// within `m` characters and yields at least one piece.
pub proof fn law_chunks_cover_line(l: Seq<char>, m: nat)
    requires
        m >= 1,
    ensures
        chunks(l, m).len() >= 1,
        forall|i: int| 0 <= i < chunks(l, m).len() ==> (#[trigger] chunks(l, m)[i]).len() <= m,
        chunks(l, m).fold_left(Seq::<char>::empty(), |acc: Seq<char>, x: Seq<char>| acc + x)
            == l,
    decreases l.len(),
{
    let f = |acc: Seq<char>, x: Seq<char>| acc + x;
    if l.len() <= m {
        assert(chunks(l, m) == seq![l]);
        assert(seq![l].drop_last() =~= Seq::<Seq<char>>::empty());
        assert(seq![l].fold_left(Seq::<char>::empty(), f) =~= l) by {
            reveal_with_fuel(Seq::fold_left, 2);
        }
    } else {
        let rest = chunks(l.skip(m as int), m);
        law_chunks_cover_line(l.skip(m as int), m);
        let c = seq![l.take(m as int)] + rest;
        assert(chunks(l, m) == c);
        assert forall|i: int| 0 <= i < c.len() implies (#[trigger] c[i]).len() <= m by {
            if i > 0 {
                assert(c[i] == rest[i - 1]);
            }
        }
        lemma_fold_concat_front(l.take(m as int), rest);
        assert(l.take(m as int) + l.skip(m as int) =~= l);
    }
}

/// Concatenating `[a] + rest` is `a` followed by the concatenation of `rest`.
pub proof fn lemma_fold_concat_front(a: Seq<char>, rest: Seq<Seq<char>>)
    ensures
        (seq![a] + rest).fold_left(Seq::<char>::empty(), |acc: Seq<char>, x: Seq<char>| acc + x)
            == a + rest.fold_left(
            Seq::<char>::empty(),
            |acc: Seq<char>, x: Seq<char>| acc + x,
        ),
    decreases rest.len(),
{
    let f = |acc: Seq<char>, x: Seq<char>| acc + x;
    let e = Seq::<char>::empty();
    if rest.len() == 0 {
        assert(seq![a] + rest =~= seq![a]);
        assert(seq![a].drop_last() =~= Seq::<Seq<char>>::empty());
        reveal_with_fuel(Seq::fold_left, 2);
        assert(rest.fold_left(e, f) == e);
        assert(a + e =~= a);
    } else {
        let whole = seq![a] + rest;
        assert(whole.drop_last() =~= seq![a] + rest.drop_last());
        lemma_fold_concat_front(a, rest.drop_last());
        assert(whole.last() == rest.last());
        assert(whole.fold_left(e, f) == f(whole.drop_last().fold_left(e, f), whole.last()));
        assert(rest.fold_left(e, f) == f(rest.drop_last().fold_left(e, f), rest.last()));
        assert((a + rest.drop_last().fold_left(e, f)) + rest.last() =~= a + (
        rest.drop_last().fold_left(e, f) + rest.last()));
    }
}

/// Every line a text area shows fits its width, and it always shows at least one line.
pub proof fn law_wrapped_fits(s: Seq<char>, m: nat)
    requires
        m >= 1,
    ensures
        wrapped(s, m).len() >= 1,
        forall|i: int| 0 <= i < wrapped(s, m).len() ==> (#[trigger] wrapped(s, m)[i]).len() <= m,
{
    let ls = text_lines(s);
    assert(ls.len() >= 1);
    lemma_wrap_all_fits(ls, m);
    crate::text::lemma_wrap_all_len(ls, m);
}

/// Every piece of a wrapped list of lines fits the width.
pub proof fn lemma_wrap_all_fits(ls: Seq<Seq<char>>, m: nat)
    requires
        m >= 1,
    ensures
        forall|i: int| 0 <= i < wrap_all(ls, m).len() ==> (#[trigger] wrap_all(ls, m)[i]).len() <= m,
    decreases ls.len(),
{
    if ls.len() > 0 {
        lemma_wrap_all_fits(ls.drop_last(), m);
        law_chunks_cover_line(ls.last(), m);
        let a = wrap_all(ls.drop_last(), m);
        let c = chunks(ls.last(), m);
        assert forall|i: int| 0 <= i < (a + c).len() implies (#[trigger] (a + c)[i]).len() <= m by {
            if i >= a.len() {
                assert((a + c)[i] == c[i - a.len()]);
            } else {
                assert((a + c)[i] == a[i]);
            }
        }
    }
}

/// The element under the pointer is on the board, is hit, and is a node whenever some
/// node is hit: groups are picked only when no node is under the pointer.
pub proof fn law_pick_prefers_nodes<F>(wb: Whiteboard<F>, hits: Seq<bool>)
    requires
        hits.len() == wb.order@.len(),
    ensures
        wb.pick(hits) matches Some(id) ==> exists|i: int|
            0 <= i < wb.order@.len() && wb.order@[i] == id && #[trigger] hits[i]
                && wb.items().contains_key(id),
        wb.pick(hits) matches Some(id) && wb.items()[id].is_group() ==> forall|i: int|
            0 <= i < wb.order@.len() ==> !wb.hit_at(hits, i, false),
{
    let n = wb.order@.len() as int;
    lemma_last_hit(wb, hits, false, n);
    lemma_last_hit(wb, hits, true, n);
    if let Some(i) = wb.last_hit(hits, false, n) {
        assert(hits[i]);
    } else if let Some(i) = wb.last_hit(hits, true, n) {
        assert(hits[i]);
    }
}

/// `last_hit` finds a hit position below `n`, or there is none.
pub proof fn lemma_last_hit<F>(wb: Whiteboard<F>, hits: Seq<bool>, group: bool, n: int)
    ensures
        wb.last_hit(hits, group, n) matches Some(i) ==> 0 <= i < n && wb.hit_at(hits, i, group),
        wb.last_hit(hits, group, n) is None ==> forall|i: int|
            0 <= i < n ==> !wb.hit_at(hits, i, group),
    decreases n,
{
    if n > 0 {
        lemma_last_hit(wb, hits, group, n - 1);
    }
}

/// Searching from position `i` finds the first position, from `i` on, that can take the
/// dragged element, and finds none when no such position exists.
pub proof fn lemma_landing_first_from<F>(
    items: Map<Id, ItemView<F>>,
    order: Seq<Id>,
    inside: Seq<bool>,
    id: Id,
    i: int,
)
    requires
        0 <= i,
    ensures
        match landing(items, order, inside, id, i) {
            Some(k) => i <= k && lands_at(items, order, inside, id, k) && forall|j: int|
                i <= j < k ==> !#[trigger] lands_at(items, order, inside, id, j),
            None => forall|j: int|
                i <= j < order.len() ==> !#[trigger] lands_at(items, order, inside, id, j),
        },
    decreases order.len() - i,
{
    if i < order.len() {
        lemma_landing_first_from(items, order, inside, id, i + 1);
    }
}

/// A drag lands at the earliest position of the drawing order that holds another group
/// containing the dragged element's centre; it lands nowhere exactly when no position does.
pub proof fn law_landing_is_first<F>(
    items: Map<Id, ItemView<F>>,
    order: Seq<Id>,
    inside: Seq<bool>,
    id: Id,
)
    ensures
        match landing(items, order, inside, id, 0) {
            Some(k) => lands_at(items, order, inside, id, k) && forall|j: int|
                0 <= j < k ==> !#[trigger] lands_at(items, order, inside, id, j),
            None => forall|j: int| !#[trigger] lands_at(items, order, inside, id, j),
        },
{
    lemma_landing_first_from(items, order, inside, id, 0);
}

/// When a drag of `id` ends, a group holds `id` exactly when it is the first group in
/// drawing order (other than `id`) whose area contains the centre: every position before
/// it fails, and when such a position exists its group receives `id`.
pub proof fn law_drag_lands_in_first_group<F>(
    items: Map<Id, ItemView<F>>,
    order: Seq<Id>,
    inside: Seq<bool>,
    id: Id,
)
    requires
        inside.len() == order.len(),
    ensures
        ({
            let s = items.map_values(|v: ItemView<F>| v.without_child(id));
            let r = regrouped(items, order, inside, id);
            &&& forall|g: Id|
                #[trigger] r.contains_key(g) && r[g].is_group() && r[g]->Group_children.contains(id)
                    ==> exists|j: int|
                    #![trigger order[j]]
                    lands_at(s, order, inside, id, j) && order[j] == g && forall|i: int|
                        0 <= i < j ==> !#[trigger] lands_at(s, order, inside, id, i)
            &&& forall|j: int|
                #![trigger order[j]]
                s.contains_key(id) && lands_at(s, order, inside, id, j) && (forall|i: int|
                    0 <= i < j ==> !#[trigger] lands_at(s, order, inside, id, i)) ==> r[order[j]]
                    ->Group_children.contains(id)
        }),
{
    let s = items.map_values(|v: ItemView<F>| v.without_child(id));
    let r = regrouped(items, order, inside, id);
    law_drag_end_single_parent(items, order, inside, id);
    law_landing_is_first(s, order, inside, id);
    assert forall|g: Id|
        #[trigger] r.contains_key(g) && r[g].is_group() && r[g]->Group_children.contains(id)
        implies exists|j: int|
        #![trigger order[j]]
        lands_at(s, order, inside, id, j) && order[j] == g && forall|i: int|
            0 <= i < j ==> !#[trigger] lands_at(s, order, inside, id, i) by {
        let k = landing(s, order, inside, id, 0)->0;
        assert(order[k] == g);
    }
    assert forall|j: int|
        #![trigger order[j]]
        s.contains_key(id) && lands_at(s, order, inside, id, j) && (forall|i: int|
            0 <= i < j ==> !#[trigger] lands_at(s, order, inside, id, i)) implies r[order[j]]
        ->Group_children.contains(id) by {
        match landing(s, order, inside, id, 0) {
            Some(k) => {
                if k < j {
                    assert(!lands_at(s, order, inside, id, k));
                } else if j < k {
                    assert(!lands_at(s, order, inside, id, j));
                }
            },
            None => {
                assert(!lands_at(s, order, inside, id, j));
            },
        }
    }
}

/// `axis_plan` cut into its parts: spines, grid, ticks of each axis, origin lines.
proof fn lemma_plan_parts(
    x_ticks: usize,
    y_ticks: usize,
    show_grid: bool,
    x_spans_zero: bool,
    y_spans_zero: bool,
)
    requires
        x_ticks < usize::MAX,
        y_ticks < usize::MAX,
    ensures
        ({
            let gx = crate::plot::run(1, x_ticks as int, |i: usize| AxisLine::GridX(i));
            let gy = crate::plot::run(1, y_ticks as int, |i: usize| AxisLine::GridY(i));
            let tx = crate::plot::run(0, x_ticks + 1, |i: usize| AxisLine::TickX(i));
            let ty = crate::plot::run(0, y_ticks + 1, |i: usize| AxisLine::TickY(i));
            let grid = if show_grid { gx + gy } else { Seq::empty() };
            let ox = if x_spans_zero { seq![AxisLine::OriginX] } else { Seq::<AxisLine>::empty() };
            let oy = if y_spans_zero { seq![AxisLine::OriginY] } else { Seq::<AxisLine>::empty() };
            &&& axis_plan(x_ticks, y_ticks, show_grid, x_spans_zero, y_spans_zero) == seq![
                AxisLine::SpineBottom,
                AxisLine::SpineLeft,
                AxisLine::SpineTop,
                AxisLine::SpineRight,
            ] + grid + (tx + ty) + ox + oy
            &&& gx.len() == (if x_ticks > 1 { x_ticks - 1 } else { 0int })
            &&& gy.len() == (if y_ticks > 1 { y_ticks - 1 } else { 0int })
            &&& tx.len() == x_ticks + 1
            &&& ty.len() == y_ticks + 1
            &&& forall|k: int| 0 <= k < gx.len() ==> #[trigger] gx[k] == AxisLine::GridX((k + 1) as usize)
            &&& forall|k: int| 0 <= k < gy.len() ==> #[trigger] gy[k] == AxisLine::GridY((k + 1) as usize)
            &&& forall|k: int| 0 <= k < tx.len() ==> #[trigger] tx[k] == AxisLine::TickX(k as usize)
            &&& forall|k: int| 0 <= k < ty.len() ==> #[trigger] ty[k] == AxisLine::TickY(k as usize)
        }),
{
    lemma_run(1, x_ticks as int, |i: usize| AxisLine::GridX(i));
    lemma_run(1, y_ticks as int, |i: usize| AxisLine::GridY(i));
    lemma_run(0, x_ticks + 1, |i: usize| AxisLine::TickX(i));
    lemma_run(0, y_ticks + 1, |i: usize| AxisLine::TickY(i));
}

/// Which lines the axes hold: the four spines; with a grid, one vertical line at every inner
/// x tick and one horizontal line at every inner y tick, and no grid line without it; a tick
/// mark at every x tick and every y tick, both ends included; an origin line for each range
/// that spans zero and none otherwise. The count is exactly that many lines.
pub proof fn law_axes_cover_every_tick(
    x_ticks: usize,
    y_ticks: usize,
    show_grid: bool,
    x_spans_zero: bool,
    y_spans_zero: bool,
)
    requires
        x_ticks < usize::MAX,
        y_ticks < usize::MAX,
    ensures
        ({
            let p = axis_plan(x_ticks, y_ticks, show_grid, x_spans_zero, y_spans_zero);
            let inner_x: int = if x_ticks > 1 { x_ticks - 1 } else { 0 };
            let inner_y: int = if y_ticks > 1 { y_ticks - 1 } else { 0 };
            &&& p.len() == 4 + (if show_grid { inner_x + inner_y } else { 0 }) + (x_ticks + 1) + (
            y_ticks + 1) + (if x_spans_zero { 1int } else { 0 }) + (if y_spans_zero { 1int } else { 0 })
            &&& p.contains(AxisLine::SpineBottom) && p.contains(AxisLine::SpineLeft)
            &&& p.contains(AxisLine::SpineTop) && p.contains(AxisLine::SpineRight)
            &&& forall|i: usize|
                1 <= i < x_ticks ==> (#[trigger] p.contains(AxisLine::GridX(i)) <==> show_grid)
            &&& forall|i: usize|
                1 <= i < y_ticks ==> (#[trigger] p.contains(AxisLine::GridY(i)) <==> show_grid)
            &&& forall|i: usize| i <= x_ticks ==> #[trigger] p.contains(AxisLine::TickX(i))
            &&& forall|i: usize| i <= y_ticks ==> #[trigger] p.contains(AxisLine::TickY(i))
            &&& p.contains(AxisLine::OriginX) <==> x_spans_zero
            &&& p.contains(AxisLine::OriginY) <==> y_spans_zero
        }),
{
    lemma_plan_parts(x_ticks, y_ticks, show_grid, x_spans_zero, y_spans_zero);
    let p = axis_plan(x_ticks, y_ticks, show_grid, x_spans_zero, y_spans_zero);
    assert(p[0] == AxisLine::SpineBottom);
    assert(p[1] == AxisLine::SpineLeft);
    assert(p[2] == AxisLine::SpineTop);
    assert(p[3] == AxisLine::SpineRight);
    assert forall|i: usize| 1 <= i < x_ticks implies (#[trigger] p.contains(AxisLine::GridX(i))
        <==> show_grid) by {
        lemma_plan_grid_x(x_ticks, y_ticks, show_grid, x_spans_zero, y_spans_zero, i);
    }
    assert forall|i: usize| 1 <= i < y_ticks implies (#[trigger] p.contains(AxisLine::GridY(i))
        <==> show_grid) by {
        lemma_plan_grid_y(x_ticks, y_ticks, show_grid, x_spans_zero, y_spans_zero, i);
    }
    assert forall|i: usize| i <= x_ticks implies #[trigger] p.contains(AxisLine::TickX(i)) by {
        lemma_plan_ticks(x_ticks, y_ticks, show_grid, x_spans_zero, y_spans_zero, i, 0);
    }
    assert forall|i: usize| i <= y_ticks implies #[trigger] p.contains(AxisLine::TickY(i)) by {
        lemma_plan_ticks(x_ticks, y_ticks, show_grid, x_spans_zero, y_spans_zero, 0, i);
    }
    lemma_plan_origins(x_ticks, y_ticks, show_grid, x_spans_zero, y_spans_zero);
}

/// No grid line, and no origin line of a range that does not span zero, outside the ticks
/// and grid that the plan asks for.
proof fn lemma_plan_kinds(
    x_ticks: usize,
    y_ticks: usize,
    show_grid: bool,
    x_spans_zero: bool,
    y_spans_zero: bool,
    k: int,
)
    requires
        x_ticks < usize::MAX,
        y_ticks < usize::MAX,
        0 <= k < axis_plan(x_ticks, y_ticks, show_grid, x_spans_zero, y_spans_zero).len(),
    ensures
        ({
            let l = axis_plan(x_ticks, y_ticks, show_grid, x_spans_zero, y_spans_zero)[k];
            &&& (l is GridX || l is GridY) ==> show_grid
            &&& l is OriginX ==> x_spans_zero
            &&& l is OriginY ==> y_spans_zero
        }),
{
    lemma_plan_parts(x_ticks, y_ticks, show_grid, x_spans_zero, y_spans_zero);
    let gx = crate::plot::run(1, x_ticks as int, |i: usize| AxisLine::GridX(i));
    let gy = crate::plot::run(1, y_ticks as int, |i: usize| AxisLine::GridY(i));
    let tx = crate::plot::run(0, x_ticks + 1, |i: usize| AxisLine::TickX(i));
    let ty = crate::plot::run(0, y_ticks + 1, |i: usize| AxisLine::TickY(i));
    let grid = if show_grid { gx + gy } else { Seq::empty() };
    let ox = if x_spans_zero { seq![AxisLine::OriginX] } else { Seq::<AxisLine>::empty() };
    let oy = if y_spans_zero { seq![AxisLine::OriginY] } else { Seq::<AxisLine>::empty() };
    let p = axis_plan(x_ticks, y_ticks, show_grid, x_spans_zero, y_spans_zero);
    let t0 = 4 + grid.len();
    let o0 = t0 + tx.len() + ty.len();
    if k < 4 {
    } else if k < t0 {
        assert(p[k] == grid[k - 4]);
    } else if k < t0 + tx.len() {
        assert(p[k] == tx[k - t0]);
    } else if k < o0 {
        assert(p[k] == ty[k - t0 - tx.len()]);
    } else {
        assert(p[k] == (ox + oy)[k - o0]);
    }
}

/// Grid line `GridX(i)` is there exactly with a grid.
proof fn lemma_plan_grid_x(
    x_ticks: usize,
    y_ticks: usize,
    show_grid: bool,
    x_spans_zero: bool,
    y_spans_zero: bool,
    i: usize,
)
    requires
        x_ticks < usize::MAX,
        y_ticks < usize::MAX,
        1 <= i < x_ticks,
    ensures
        axis_plan(x_ticks, y_ticks, show_grid, x_spans_zero, y_spans_zero).contains(
            AxisLine::GridX(i),
        ) <==> show_grid,
{
    lemma_plan_parts(x_ticks, y_ticks, show_grid, x_spans_zero, y_spans_zero);
    let p = axis_plan(x_ticks, y_ticks, show_grid, x_spans_zero, y_spans_zero);
    let gx = crate::plot::run(1, x_ticks as int, |i: usize| AxisLine::GridX(i));
    let gy = crate::plot::run(1, y_ticks as int, |i: usize| AxisLine::GridY(i));
    if show_grid {
        assert(gx[i - 1] == AxisLine::GridX(i));
        assert((gx + gy)[i - 1] == gx[i - 1]);
        assert(p[4 + i - 1] == AxisLine::GridX(i));
    } else if p.contains(AxisLine::GridX(i)) {
        let k = choose|k: int| 0 <= k < p.len() && p[k] == AxisLine::GridX(i);
        lemma_plan_kinds(x_ticks, y_ticks, show_grid, x_spans_zero, y_spans_zero, k);
    }
}

/// Grid line `GridY(i)` is there exactly with a grid.
proof fn lemma_plan_grid_y(
    x_ticks: usize,
    y_ticks: usize,
    show_grid: bool,
    x_spans_zero: bool,
    y_spans_zero: bool,
    i: usize,
)
    requires
        x_ticks < usize::MAX,
        y_ticks < usize::MAX,
        1 <= i < y_ticks,
    ensures
        axis_plan(x_ticks, y_ticks, show_grid, x_spans_zero, y_spans_zero).contains(
            AxisLine::GridY(i),
        ) <==> show_grid,
{
    lemma_plan_parts(x_ticks, y_ticks, show_grid, x_spans_zero, y_spans_zero);
    let p = axis_plan(x_ticks, y_ticks, show_grid, x_spans_zero, y_spans_zero);
    let gx = crate::plot::run(1, x_ticks as int, |i: usize| AxisLine::GridX(i));
    let gy = crate::plot::run(1, y_ticks as int, |i: usize| AxisLine::GridY(i));
    if show_grid {
        assert(gy[i - 1] == AxisLine::GridY(i));
        assert((gx + gy)[gx.len() + i - 1] == gy[i - 1]);
        assert(p[4 + gx.len() + i - 1] == AxisLine::GridY(i));
    } else if p.contains(AxisLine::GridY(i)) {
        let k = choose|k: int| 0 <= k < p.len() && p[k] == AxisLine::GridY(i);
        lemma_plan_kinds(x_ticks, y_ticks, show_grid, x_spans_zero, y_spans_zero, k);
    }
}

/// Tick marks `TickX(i)` and `TickY(j)` are there.
proof fn lemma_plan_ticks(
    x_ticks: usize,
    y_ticks: usize,
    show_grid: bool,
    x_spans_zero: bool,
    y_spans_zero: bool,
    i: usize,
    j: usize,
)
    requires
        x_ticks < usize::MAX,
        y_ticks < usize::MAX,
        i <= x_ticks,
        j <= y_ticks,
    ensures
        axis_plan(x_ticks, y_ticks, show_grid, x_spans_zero, y_spans_zero).contains(
            AxisLine::TickX(i),
        ),
        axis_plan(x_ticks, y_ticks, show_grid, x_spans_zero, y_spans_zero).contains(
            AxisLine::TickY(j),
        ),
{
    lemma_plan_parts(x_ticks, y_ticks, show_grid, x_spans_zero, y_spans_zero);
    let p = axis_plan(x_ticks, y_ticks, show_grid, x_spans_zero, y_spans_zero);
    let gx = crate::plot::run(1, x_ticks as int, |i: usize| AxisLine::GridX(i));
    let gy = crate::plot::run(1, y_ticks as int, |i: usize| AxisLine::GridY(i));
    let tx = crate::plot::run(0, x_ticks + 1, |i: usize| AxisLine::TickX(i));
    let ty = crate::plot::run(0, y_ticks + 1, |i: usize| AxisLine::TickY(i));
    let grid = if show_grid { gx + gy } else { Seq::empty() };
    let t0 = 4 + grid.len();
    assert(tx[i as int] == AxisLine::TickX(i));
    assert(p[t0 + i] == AxisLine::TickX(i));
    assert(ty[j as int] == AxisLine::TickY(j));
    assert(p[t0 + tx.len() + j] == AxisLine::TickY(j));
}

/// The origin lines are there exactly for the ranges that span zero.
proof fn lemma_plan_origins(
    x_ticks: usize,
    y_ticks: usize,
    show_grid: bool,
    x_spans_zero: bool,
    y_spans_zero: bool,
)
    requires
        x_ticks < usize::MAX,
        y_ticks < usize::MAX,
    ensures
        axis_plan(x_ticks, y_ticks, show_grid, x_spans_zero, y_spans_zero).contains(
            AxisLine::OriginX,
        ) <==> x_spans_zero,
        axis_plan(x_ticks, y_ticks, show_grid, x_spans_zero, y_spans_zero).contains(
            AxisLine::OriginY,
        ) <==> y_spans_zero,
{
    lemma_plan_parts(x_ticks, y_ticks, show_grid, x_spans_zero, y_spans_zero);
    let p = axis_plan(x_ticks, y_ticks, show_grid, x_spans_zero, y_spans_zero);
    let gx = crate::plot::run(1, x_ticks as int, |i: usize| AxisLine::GridX(i));
    let gy = crate::plot::run(1, y_ticks as int, |i: usize| AxisLine::GridY(i));
    let grid = if show_grid { gx + gy } else { Seq::empty() };
    let o0 = 4 + grid.len() + (x_ticks + 1) + (y_ticks + 1);
    if x_spans_zero {
        assert(p[o0] == AxisLine::OriginX);
    } else if p.contains(AxisLine::OriginX) {
        let k = choose|k: int| 0 <= k < p.len() && p[k] == AxisLine::OriginX;
        lemma_plan_kinds(x_ticks, y_ticks, show_grid, x_spans_zero, y_spans_zero, k);
    }
    if y_spans_zero {
        assert(p[p.len() - 1] == AxisLine::OriginY);
    } else if p.contains(AxisLine::OriginY) {
        let k = choose|k: int| 0 <= k < p.len() && p[k] == AxisLine::OriginY;
        lemma_plan_kinds(x_ticks, y_ticks, show_grid, x_spans_zero, y_spans_zero, k);
    }
}

/// What a focused text area does with the keys of a frame: typed characters are appended in
/// order; a backspace then removes exactly one character, the last one, when there is any
/// (whether or not characters were typed in the same frame), and leaves an empty text empty;
/// an enter then appends one newline.
pub proof fn law_text_area_keys(text: Seq<char>, typed: Seq<char>, backspace: bool)
    ensures
        edited(text, typed, false, false) == text + typed,
        (text + typed).len() > 0 ==> {
            let e = edited(text, typed, true, false);
            &&& e.len() + 1 == text.len() + typed.len()
            &&& forall|k: int| 0 <= k < e.len() ==> #[trigger] e[k] == (text + typed)[k]
        },
        (text + typed).len() == 0 ==> edited(text, typed, true, false).len() == 0,
        edited(text, typed, backspace, true) == edited(text, typed, backspace, false).push('\n'),
{
}

/// The overlay of the demo scene strokes a full circle: its arc turns through exactly 2π.
pub proof fn law_demo_circle_is_full()
    ensures
        exists|k: int| 0 <= k < demo_drawing().len() && #[trigger] demo_drawing()[k] is Arc,
        forall|k: int|
            0 <= k < demo_drawing().len() ==> (#[trigger] demo_drawing()[k] matches CanvasCommand::Arc {
                start_pi,
                end_pi,
                r,
                ..
            } ==> start_pi.den > 0 && end_pi.den > 0 && r.num > 0 && r.den > 0
                && end_pi.num * start_pi.den - start_pi.num * end_pi.den == 2 * start_pi.den
                * end_pi.den),
{
    let d = demo_drawing();
    assert(d[10] is Arc);
    assert forall|k: int| 0 <= k < d.len() implies (#[trigger] d[k] matches CanvasCommand::Arc {
        start_pi,
        end_pi,
        r,
        ..
    } ==> start_pi.den > 0 && end_pi.den > 0 && r.num > 0 && r.den > 0 && end_pi.num
        * start_pi.den - start_pi.num * end_pi.den == 2 * start_pi.den * end_pi.den) by {
        if k != 10 {
            assert(!(d[k] is Arc));
        }
    }
}

} // verus!
