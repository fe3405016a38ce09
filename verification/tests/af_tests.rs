use rawblow::af::{af_axes, af_centre_group, AfAxes};

/// The display position of a sensor point `(x, y, w, h)` under `a`, in floating point.
fn on_screen(a: AfAxes, p: (f64, f64, f64, f64)) -> (f64, f64, f64, f64) {
    let (x, y, w, h) = p;
    let (u, v, uw, vh) = if a.swap { (y, x, h, w) } else { (x, y, w, h) };
    (if a.flip_x { 1.0 - u } else { u }, if a.flip_y { 1.0 - v } else { v }, uw, vh)
}

fn close(a: (f64, f64, f64, f64), b: (f64, f64, f64, f64)) {
    assert!((a.0 - b.0).abs() < 1e-9 && (a.1 - b.1).abs() < 1e-9, "{a:?} vs {b:?}");
    assert!((a.2 - b.2).abs() < 1e-9 && (a.3 - b.3).abs() < 1e-9, "{a:?} vs {b:?}");
}

#[test]
fn af_axes_move_points_like_each_orientation() {
    let pt = (0.25, 0.1, 0.2, 0.4);
    close(on_screen(af_axes(1), pt), (0.25, 0.1, 0.2, 0.4));
    close(on_screen(af_axes(0), pt), (0.25, 0.1, 0.2, 0.4));
    close(on_screen(af_axes(9), pt), (0.25, 0.1, 0.2, 0.4));
    close(on_screen(af_axes(2), pt), (0.75, 0.1, 0.2, 0.4));
    close(on_screen(af_axes(3), pt), (0.75, 0.9, 0.2, 0.4));
    close(on_screen(af_axes(4), pt), (0.25, 0.9, 0.2, 0.4));
    close(on_screen(af_axes(5), pt), (0.1, 0.25, 0.4, 0.2));
    close(on_screen(af_axes(6), pt), (0.9, 0.25, 0.4, 0.2));
    close(on_screen(af_axes(7), pt), (0.9, 0.75, 0.4, 0.2));
    close(on_screen(af_axes(8), pt), (0.1, 0.75, 0.4, 0.2));
    assert_eq!(af_axes(6), AfAxes { swap: true, flip_x: true, flip_y: false });
    assert_eq!(af_axes(u16::MAX), AfAxes { swap: false, flip_x: false, flip_y: false });
}

#[test]
fn af_centre_prefers_focus_then_selection_then_all() {
    // in focus: the first two; the selected third one is left out
    assert_eq!(
        af_centre_group(&vec![(true, false), (true, true), (false, true), (false, false)]),
        Some(vec![0, 1])
    );
    // none in focus: the selected ones
    assert_eq!(af_centre_group(&vec![(false, true), (false, true), (false, false)]), Some(vec![0, 1]));
    // neither: all of them
    assert_eq!(af_centre_group(&vec![(false, false), (false, false)]), Some(vec![0, 1]));
    // no points: no centre
    assert_eq!(af_centre_group(&vec![]), None);
    // the averages over those groups
    let pts = [(0.2, 0.4), (0.6, 0.8), (0.4, 0.2), (0.9, 0.9)];
    let g = af_centre_group(&vec![(true, false), (true, true), (false, true), (false, false)]).unwrap();
    let (sx, sy) = g.iter().fold((0.0, 0.0), |(a, b), &i| (a + pts[i].0, b + pts[i].1));
    let n = g.len() as f64;
    assert!((sx / n - 0.4).abs() < 1e-9 && (sy / n - 0.6).abs() < 1e-9);
}
