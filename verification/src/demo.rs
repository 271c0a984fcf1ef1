use vstd::prelude::*;

verus! {

/// The exact number `num / den`.
#[derive(Clone, Copy, PartialEq, Eq, Structural, Debug)]
pub struct Ratio {
    pub num: i64,
    pub den: i64,
}

/// A colour, each channel a fraction of full intensity.
#[derive(Clone, Copy, PartialEq, Eq, Structural, Debug)]
pub struct Rgb {
    pub r: Ratio,
    pub g: Ratio,
    pub b: Ratio,
}

/// `count` evenly spaced samples: sample `i` is `offset + (i / step_den) * scale`, times π
/// when `times_pi`.
#[derive(Clone, Copy, PartialEq, Eq, Structural, Debug)]
pub struct Sampling {
    pub count: usize,
    pub offset: Ratio,
    pub step_den: i64,
    pub scale: Ratio,
    pub times_pi: bool,
}

/// The animated height field of the demo.
#[derive(Clone, Copy, PartialEq, Eq, Structural, Debug)]
pub enum SurfaceFn {
    /// `exp(-r² / 8) · cos(4r − 5t)` with `r` the distance from the vertical axis.
    GaussianRipple,
}

/// The space curves of the demo.
#[derive(Clone, Copy, PartialEq, Eq, Structural, Debug)]
pub enum CurveFn {
    /// `(3 cos u, 0.3 u − 3, 3 sin u)`.
    Helix,
    /// A trefoil-like knot whose size and height breathe with time.
    BreathingKnot,
}

/// The plane curves of the demo.
#[derive(Clone, Copy, PartialEq, Eq, Structural, Debug)]
pub enum LineFn {
    /// `sin x`.
    Sine,
    /// `0.7 cos 2x`.
    ScaledCosineDouble,
}

/// One drawing call of the canvas overlay. Angles are multiples of π.
#[derive(Clone, Copy, PartialEq, Eq, Structural, Debug)]
pub enum CanvasCommand {
    SetFillStyle(Rgb),
    SetStrokeStyle(Rgb),
    SetLineWidth(Ratio),
    BeginPath,
    MoveTo(Ratio, Ratio),
    LineTo(Ratio, Ratio),
    ClosePath,
    Fill,
    Arc { x: Ratio, y: Ratio, r: Ratio, start_pi: Ratio, end_pi: Ratio },
    Stroke,
}

/// One layer of the demo scene, in drawing order.
pub enum Layer {
    AnimatedSurface { x: Sampling, z: Sampling, surface: SurfaceFn, color: Rgb },
    ParametricCurve { u: Sampling, curve: CurveFn, color: Rgb },
    AnimatedParametricCurve { u: Sampling, curve: CurveFn, color: Rgb },
    Line2D { x: Sampling, line: LineFn, color: Rgb },
    /// Bars at the consecutive integer positions `first_label`, `first_label + 1`, ...
    Bars { first_label: i64, heights: Vec<Ratio>, width: Ratio, color: Rgb },
    /// A canvas drawing, as the calls that make it.
    Drawing(Vec<CanvasCommand>),
}

/// The grid settings of the demo scene.
#[derive(Clone, Copy, PartialEq, Eq, Structural, Debug)]
pub struct DemoConfig {
    pub grid_size: Ratio,
    pub grid_divisions: u32,
    pub show_axis_labels: bool,
}

/// The demo scene: its grid settings and its layers.
pub struct DemoData {
    pub config: DemoConfig,
    pub layers: Vec<Layer>,
}

/// `n / d`.
pub open spec fn q(n: i64, d: i64) -> Ratio {
    Ratio { num: n, den: d }
}

/// The colour `(r, g, b) / 10`.
pub open spec fn tenths(r: i64, g: i64, b: i64) -> Rgb {
    Rgb { r: q(r, 10), g: q(g, 10), b: q(b, 10) }
}

/// The canvas overlay of the demo: a filled triangle and a stroked circle.
pub open spec fn demo_drawing() -> Seq<CanvasCommand> {
    seq![
        CanvasCommand::SetFillStyle(tenths(9, 3, 3)),
        CanvasCommand::BeginPath,
        CanvasCommand::MoveTo(q(0, 1), q(2, 1)),
        CanvasCommand::LineTo(q(3, 2), q(1, 2)),
        CanvasCommand::LineTo(q(-3i64, 2), q(1, 2)),
        CanvasCommand::ClosePath,
        CanvasCommand::Fill,
        CanvasCommand::SetStrokeStyle(tenths(1, 1, 8)),
        CanvasCommand::SetLineWidth(q(3, 1)),
        CanvasCommand::BeginPath,
        CanvasCommand::Arc { x: q(3, 1), y: q(5, 2), r: q(1, 1), start_pi: q(0, 1), end_pi: q(2, 1) },
        CanvasCommand::Stroke,
    ]
}

/// The sampling of `[lo, hi]` by `n` evenly spaced points, both ends included.
pub open spec fn span(n: usize, lo: i64, hi: i64) -> Sampling {
    Sampling { count: n, offset: q(lo, 1), step_den: (n - 1) as i64, scale: q((hi - lo) as i64, 1), times_pi: false }
}

fn ratio(num: i64, den: i64) -> (r: Ratio)
    ensures
        r == q(num, den),
{
    Ratio { num, den }
}

fn rgb_tenths(r: i64, g: i64, b: i64) -> (c: Rgb)
    ensures
        c == tenths(r, g, b),
{
    Rgb { r: ratio(r, 10), g: ratio(g, 10), b: ratio(b, 10) }
}

/// The demo scene that the program opens with: a rippling surface, a helix, a breathing
/// knot, two plane curves, a bar chart and a canvas drawing, on a 12-unit grid with 12
/// divisions and no axis labels.
pub fn build_demo_data() -> (d: DemoData)
    ensures
        d.config == (DemoConfig { grid_size: q(12, 1), grid_divisions: 12, show_axis_labels: false }),
        d.layers@.len() == 7,
        d.layers@[0] == (Layer::AnimatedSurface {
            x: span(60, -5i64, 5),
            z: span(60, -5i64, 5),
            surface: SurfaceFn::GaussianRipple,
            color: tenths(1, 8, 4),
        }),
        d.layers@[1] == (Layer::ParametricCurve {
            u: Sampling { count: 401, offset: q(0, 1), step_den: 400, scale: q(6, 1), times_pi: true },
            curve: CurveFn::Helix,
            color: tenths(10, 4, 1),
        }),
        d.layers@[2] == (Layer::AnimatedParametricCurve {
            u: Sampling { count: 601, offset: q(0, 1), step_den: 600, scale: q(2, 1), times_pi: true },
            curve: CurveFn::BreathingKnot,
            color: tenths(3, 6, 10),
        }),
        d.layers@[3] == (Layer::Line2D {
            x: Sampling { count: 401, offset: q(-6i64, 1), step_den: 400, scale: q(12, 1), times_pi: false },
            line: LineFn::Sine,
            color: tenths(2, 4, 8),
        }),
        d.layers@[4] == (Layer::Line2D {
            x: Sampling { count: 401, offset: q(-6i64, 1), step_den: 400, scale: q(12, 1), times_pi: false },
            line: LineFn::ScaledCosineDouble,
            color: tenths(8, 2, 2),
        }),
        d.layers@[5] matches Layer::Bars { first_label, heights, width, color } && first_label == -3
            && heights@ == seq![q(12, 10), q(34, 10), q(21, 10), q(45, 10), q(30, 10), q(18, 10), q(27, 10)]
            && width == q(1, 2) && color == tenths(3, 6, 9),
        d.layers@[6] matches Layer::Drawing(cmds) && cmds@ == demo_drawing(),
        d.layers@[6] matches Layer::Drawing(cmds) && (exists|k: int|
            0 <= k < cmds@.len() && #[trigger] cmds@[k] is Arc) && forall|k: int|
            0 <= k < cmds@.len() ==> (#[trigger] cmds@[k] matches CanvasCommand::Arc {
                start_pi,
                end_pi,
                ..
            } ==> end_pi.num * start_pi.den - start_pi.num * end_pi.den == 2 * start_pi.den
                * end_pi.den),
{
    proof {
        crate::laws::law_demo_circle_is_full();
    }
    let mut layers: Vec<Layer> = Vec::new();
    let range = Sampling {
        count: 60,
        offset: ratio(-5, 1),
        step_den: 59,
        scale: ratio(10, 1),
        times_pi: false,
    };
    layers.push(Layer::AnimatedSurface { x: range, z: range, surface: SurfaceFn::GaussianRipple, color: rgb_tenths(1, 8, 4) });
    layers.push(Layer::ParametricCurve {
        u: Sampling { count: 401, offset: ratio(0, 1), step_den: 400, scale: ratio(6, 1), times_pi: true },
        curve: CurveFn::Helix,
        color: rgb_tenths(10, 4, 1),
    });
    layers.push(Layer::AnimatedParametricCurve {
        u: Sampling { count: 601, offset: ratio(0, 1), step_den: 600, scale: ratio(2, 1), times_pi: true },
        curve: CurveFn::BreathingKnot,
        color: rgb_tenths(3, 6, 10),
    });
    let plot2d = Sampling { count: 401, offset: ratio(-6, 1), step_den: 400, scale: ratio(12, 1), times_pi: false };
    layers.push(Layer::Line2D { x: plot2d, line: LineFn::Sine, color: rgb_tenths(2, 4, 8) });
    layers.push(Layer::Line2D { x: plot2d, line: LineFn::ScaledCosineDouble, color: rgb_tenths(8, 2, 2) });
    let mut heights: Vec<Ratio> = Vec::new();
    heights.push(ratio(12, 10));
    heights.push(ratio(34, 10));
    heights.push(ratio(21, 10));
    heights.push(ratio(45, 10));
    heights.push(ratio(30, 10));
    heights.push(ratio(18, 10));
    heights.push(ratio(27, 10));
    assert(heights@ =~= seq![q(12, 10), q(34, 10), q(21, 10), q(45, 10), q(30, 10), q(18, 10), q(27, 10)]);
    layers.push(Layer::Bars { first_label: -3, heights, width: ratio(1, 2), color: rgb_tenths(3, 6, 9) });
    let mut cmds: Vec<CanvasCommand> = Vec::new();
    cmds.push(CanvasCommand::SetFillStyle(rgb_tenths(9, 3, 3)));
    cmds.push(CanvasCommand::BeginPath);
    cmds.push(CanvasCommand::MoveTo(ratio(0, 1), ratio(2, 1)));
    cmds.push(CanvasCommand::LineTo(ratio(3, 2), ratio(1, 2)));
    cmds.push(CanvasCommand::LineTo(ratio(-3, 2), ratio(1, 2)));
    cmds.push(CanvasCommand::ClosePath);
    cmds.push(CanvasCommand::Fill);
    cmds.push(CanvasCommand::SetStrokeStyle(rgb_tenths(1, 1, 8)));
    cmds.push(CanvasCommand::SetLineWidth(ratio(3, 1)));
    cmds.push(CanvasCommand::BeginPath);
    cmds.push(CanvasCommand::Arc { x: ratio(3, 1), y: ratio(5, 2), r: ratio(1, 1), start_pi: ratio(0, 1), end_pi: ratio(2, 1) });
    cmds.push(CanvasCommand::Stroke);
    assert(cmds@ =~= demo_drawing());
    layers.push(Layer::Drawing(cmds));
    DemoData {
        config: DemoConfig { grid_size: ratio(12, 1), grid_divisions: 12, show_axis_labels: false },
        layers,
    }
}

} // verus!
