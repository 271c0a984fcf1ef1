use burrito::demo::{build_demo_data, CanvasCommand, Layer, Ratio};

#[test]
fn demo_scene_layers() {
    let d = build_demo_data();
    assert_eq!(d.config.grid_divisions, 12);
    assert_eq!(d.config.grid_size, Ratio { num: 12, den: 1 });
    assert!(!d.config.show_axis_labels);
    assert_eq!(d.layers.len(), 7);
    match &d.layers[0] {
        Layer::AnimatedSurface { x, z, .. } => {
            assert_eq!(x.count, 60);
            assert_eq!(x, z);
        }
        _ => panic!("surface first"),
    }
    match &d.layers[1] {
        Layer::ParametricCurve { u, .. } => assert_eq!(u.count, 401),
        _ => panic!("helix second"),
    }
    match &d.layers[2] {
        Layer::AnimatedParametricCurve { u, .. } => assert_eq!(u.count, 601),
        _ => panic!("knot third"),
    }
    match &d.layers[5] {
        Layer::Bars { first_label, heights, .. } => {
            assert_eq!(*first_label, -3);
            assert_eq!(heights.len(), 7);
            assert_eq!(heights[3], Ratio { num: 45, den: 10 });
        }
        _ => panic!("bars sixth"),
    }
    match &d.layers[6] {
        Layer::Drawing(cmds) => {
            assert_eq!(cmds.len(), 12);
            assert_eq!(cmds[6], CanvasCommand::Fill);
            assert_eq!(cmds[11], CanvasCommand::Stroke);
        }
        _ => panic!("drawing last"),
    }
}
