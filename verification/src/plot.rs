use vstd::prelude::*;

use crate::mesh::{strip, strip_indices};

verus! {

/// One line of a pair of 2D axes, by its role; the caller places it.
#[derive(PartialEq, Eq, Structural, Debug, Clone, Copy)]
pub enum AxisLine {
    /// The bottom edge of the plot area.
    SpineBottom,
    /// The left edge.
    SpineLeft,
    /// The top edge.
    SpineTop,
    /// The right edge.
    SpineRight,
    /// The vertical grid line at x tick `i`.
    GridX(usize),
    /// The horizontal grid line at y tick `i`.
    GridY(usize),
    /// The tick mark under the bottom edge at x tick `i`.
    TickX(usize),
    /// The tick mark left of the left edge at y tick `i`.
    TickY(usize),
    /// The vertical line through x = 0.
    OriginX,
    /// The horizontal line through y = 0.
    OriginY,
}

/// `f(from), f(from + 1), ..., f(to - 1)`.
pub open spec fn run(from: int, to: int, f: spec_fn(usize) -> AxisLine) -> Seq<AxisLine>
    decreases to - from,
{
    if to <= from {
        Seq::empty()
    } else {
        run(from, to - 1, f).push(f((to - 1) as usize))
    }
}

/// `run(from, to, f)` has `to - from` entries (none when `to <= from`), entry `k` being
/// `f(from + k)`.
pub proof fn lemma_run(from: int, to: int, f: spec_fn(usize) -> AxisLine)
    requires
        0 <= from,
    ensures
        run(from, to, f).len() == (if to <= from {
            0
        } else {
            to - from
        }),
        forall|k: int|
            0 <= k < run(from, to, f).len() ==> #[trigger] run(from, to, f)[k] == f(
                (from + k) as usize,
            ),
    decreases to - from,
{
    if to > from {
        lemma_run(from, to - 1, f);
    }
}

/// The lines of a pair of axes, in drawing order: the four spines; when `show_grid`, the
/// inner vertical grid lines then the inner horizontal ones; a tick mark at every x tick,
/// then at every y tick (both ends included); the line through x = 0 when the x range
/// spans zero, then the one through y = 0 when the y range does.
pub open spec fn axis_plan(
    x_ticks: usize,
    y_ticks: usize,
    show_grid: bool,
    x_spans_zero: bool,
    y_spans_zero: bool,
) -> Seq<AxisLine> {
    let spines = seq![
        AxisLine::SpineBottom,
        AxisLine::SpineLeft,
        AxisLine::SpineTop,
        AxisLine::SpineRight,
    ];
    let grid = if show_grid {
        run(1, x_ticks as int, |i: usize| AxisLine::GridX(i)) + run(
            1,
            y_ticks as int,
            |i: usize| AxisLine::GridY(i),
        )
    } else {
        Seq::empty()
    };
    let ticks = run(0, x_ticks + 1, |i: usize| AxisLine::TickX(i)) + run(
        0,
        y_ticks + 1,
        |i: usize| AxisLine::TickY(i),
    );
    let origin_x = if x_spans_zero {
        seq![AxisLine::OriginX]
    } else {
        Seq::empty()
    };
    let origin_y = if y_spans_zero {
        seq![AxisLine::OriginY]
    } else {
        Seq::empty()
    };
    spines + grid + ticks + origin_x + origin_y
}

/// Appends `f(from), ..., f(to - 1)` to `out`.
fn push_run(out: &mut Vec<AxisLine>, from: usize, to: usize, grid_x: bool, grid_y: bool, tick_x: bool)
    requires
        from <= to,
        (grid_x as int) + (grid_y as int) + (tick_x as int) <= 1,
    ensures
        final(out)@ == old(out)@ + run(
            from as int,
            to as int,
            if grid_x {
                |i: usize| AxisLine::GridX(i)
            } else if grid_y {
                |i: usize| AxisLine::GridY(i)
            } else if tick_x {
                |i: usize| AxisLine::TickX(i)
            } else {
                |i: usize| AxisLine::TickY(i)
            },
        ),
{
    let ghost f = if grid_x {
        |i: usize| AxisLine::GridX(i)
    } else if grid_y {
        |i: usize| AxisLine::GridY(i)
    } else if tick_x {
        |i: usize| AxisLine::TickX(i)
    } else {
        |i: usize| AxisLine::TickY(i)
    };
    let mut i = from;
    assert(run(from as int, from as int, f) =~= Seq::<AxisLine>::empty());
    while i < to
        invariant
            from <= i <= to,
            out@ == old(out)@ + run(from as int, i as int, f),
            f == (if grid_x {
                |i: usize| AxisLine::GridX(i)
            } else if grid_y {
                |i: usize| AxisLine::GridY(i)
            } else if tick_x {
                |i: usize| AxisLine::TickX(i)
            } else {
                |i: usize| AxisLine::TickY(i)
            }),
        decreases to - i,
    {
        let line = if grid_x {
            AxisLine::GridX(i)
        } else if grid_y {
            AxisLine::GridY(i)
        } else if tick_x {
            AxisLine::TickX(i)
        } else {
            AxisLine::TickY(i)
        };
        assert(line == f(i));
        out.push(line);
        assert(run(from as int, i + 1, f) == run(from as int, i as int, f).push(f(i)));
        i = i + 1;
    }
}

/// The lines of a pair of axes with `x_ticks` and `y_ticks` intervals (see `axis_plan`).
/// `x_spans_zero` tells whether the x range has zero strictly inside it, `y_spans_zero`
/// the same of the y range.
pub fn axis_lines(
    x_ticks: usize,
    y_ticks: usize,
    show_grid: bool,
    x_spans_zero: bool,
    y_spans_zero: bool,
) -> (r: Vec<AxisLine>)
    requires
        x_ticks < usize::MAX,
        y_ticks < usize::MAX,
    ensures
        r@ == axis_plan(x_ticks, y_ticks, show_grid, x_spans_zero, y_spans_zero),
        show_grid ==> forall|i: usize| 1 <= i < x_ticks ==> #[trigger] r@.contains(AxisLine::GridX(i)),
        show_grid ==> forall|i: usize| 1 <= i < y_ticks ==> #[trigger] r@.contains(AxisLine::GridY(i)),
        forall|i: usize| i <= x_ticks ==> #[trigger] r@.contains(AxisLine::TickX(i)),
        forall|i: usize| i <= y_ticks ==> #[trigger] r@.contains(AxisLine::TickY(i)),
{
    let out = plan_lines(x_ticks, y_ticks, show_grid, x_spans_zero, y_spans_zero);
    proof {
        crate::laws::law_axes_cover_every_tick(x_ticks, y_ticks, show_grid, x_spans_zero, y_spans_zero);
    }
    out
}

/// The lines of `axis_plan`, built one by one.
fn plan_lines(
    x_ticks: usize,
    y_ticks: usize,
    show_grid: bool,
    x_spans_zero: bool,
    y_spans_zero: bool,
) -> (r: Vec<AxisLine>)
    requires
        x_ticks < usize::MAX,
        y_ticks < usize::MAX,
    ensures
        r@ == axis_plan(x_ticks, y_ticks, show_grid, x_spans_zero, y_spans_zero),
{
    let mut out: Vec<AxisLine> = Vec::new();
    out.push(AxisLine::SpineBottom);
    out.push(AxisLine::SpineLeft);
    out.push(AxisLine::SpineTop);
    out.push(AxisLine::SpineRight);
    let ghost spines = out@;
    if show_grid {
        if x_ticks > 1 {
            push_run(&mut out, 1, x_ticks, true, false, false);
        } else {
            assert(run(1, x_ticks as int, |i: usize| AxisLine::GridX(i)) =~= Seq::<AxisLine>::empty());
        }
        if y_ticks > 1 {
            push_run(&mut out, 1, y_ticks, false, true, false);
        } else {
            assert(run(1, y_ticks as int, |i: usize| AxisLine::GridY(i)) =~= Seq::<AxisLine>::empty());
        }
    }
    let ghost with_grid = out@;
    push_run(&mut out, 0, x_ticks + 1, false, false, true);
    push_run(&mut out, 0, y_ticks + 1, false, false, false);
    if x_spans_zero {
        out.push(AxisLine::OriginX);
    }
    if y_spans_zero {
        out.push(AxisLine::OriginY);
    }
    assert(out@ =~= axis_plan(x_ticks, y_ticks, show_grid, x_spans_zero, y_spans_zero));
    out
}

/// The indices that join the `count` samples of a plotted line into a polyline: none for
/// fewer than two samples.
pub fn line_indices(count: usize) -> (r: Vec<u32>)
    requires
        count <= u32::MAX,
    ensures
        r@ == strip_indices(count as nat),
{
    strip(count as u32)
}

} // verus!
