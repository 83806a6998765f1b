use mandelbrot::coloring::{gradient_color, max_iter, shade, ColorMode};
use mandelbrot::escape::{escape_index, texcoord_to_complex, GRADIENT_MAX_ITER, MAX_ITER, ONE};
use mandelbrot::interaction::{FrameUniforms, Viewer};
use mandelbrot::palette::{build_palette, escape_color, hsv_to_rgb, PaletteError, NUM_COLORS};
use mandelbrot::view::{
    norm_mouse_pos, tick, view_transform, Action, MouseButton, TouchPhase, ViewState, ViewTransform,
    MAX_ZOOM, MIN_ZOOM, VIEW_ONE,
};

#[test]
fn hsv_red_at_hue_zero() {
    assert_eq!(hsv_to_rgb(0, 1, 1, 1), Ok([255, 0, 0]));
}

#[test]
fn hsv_third_is_pure_green() {
    assert_eq!(hsv_to_rgb(1, 3, 3, 3), Ok([0, 255, 0]));
}

#[test]
fn hsv_truncates_channels() {
    // hue 1/12: sector 0, f = 0.5, t = 127.5 truncated
    assert_eq!(hsv_to_rgb(1, 12, 12, 12), Ok([255, 127, 0]));
    // hue 3/12: sector 1, q = 127
    assert_eq!(hsv_to_rgb(3, 12, 12, 12), Ok([127, 255, 0]));
}

#[test]
fn hsv_partial_saturation_and_value() {
    // h = 0, s = 1/2, v = 1/2: (v, t, p) = (127, 63, 63)
    assert_eq!(hsv_to_rgb(0, 1, 1, 2), Ok([127, 63, 63]));
    // black at zero value
    assert_eq!(hsv_to_rgb(5, 0, 0, 7), Ok([0, 0, 0]));
}

#[test]
fn hsv_rejects_full_turn() {
    assert_eq!(hsv_to_rgb(1, 1, 1, 1), Err(PaletteError::InvalidHueSector(6)));
    assert_eq!(hsv_to_rgb(5, 2, 2, 2), Err(PaletteError::InvalidHueSector(15)));
}

#[test]
fn hsv_sector_shapes_full_saturation() {
    for i in 0..NUM_COLORS {
        let c = hsv_to_rgb(i, NUM_COLORS, NUM_COLORS, NUM_COLORS).unwrap();
        assert_eq!(c.iter().filter(|&&x| x == 255).count() >= 1, true);
        assert_eq!(c.iter().filter(|&&x| x == 0).count() >= 1, true);
        let sector = 6 * i / NUM_COLORS;
        let (hi, lo) = match sector {
            0 => (0, 2),
            1 => (1, 2),
            2 => (1, 0),
            3 => (2, 0),
            4 => (2, 1),
            _ => (0, 1),
        };
        assert_eq!(c[hi], 255);
        assert_eq!(c[lo], 0);
    }
}

#[test]
fn palette_has_rgba_entries() {
    let p = build_palette(NUM_COLORS);
    assert_eq!(p.len(), 4 * NUM_COLORS as usize);
    assert_eq!(&p[0..4], &[255, 0, 0, 255]);
    assert_eq!(&p[4..8], &[255, 127, 0, 255]);
    assert_eq!(&p[16..20], &[0, 255, 0, 255]);
    for i in 0..NUM_COLORS as usize {
        assert_eq!(p[4 * i + 3], 255);
    }
}

#[test]
fn palette_color_interior_is_black() {
    let p = build_palette(NUM_COLORS);
    assert_eq!(escape_color(MAX_ITER, MAX_ITER, &p), [0, 0, 0, 255]);
}

#[test]
fn palette_color_bands_repeat() {
    let p = build_palette(NUM_COLORS);
    assert_eq!(escape_color(1, MAX_ITER, &p), [255, 127, 0, 255]);
    assert_eq!(escape_color(13, MAX_ITER, &p), [255, 127, 0, 255]);
    assert_eq!(escape_color(12, MAX_ITER, &p), [255, 0, 0, 255]);
}

#[test]
fn origin_never_escapes() {
    assert_eq!(escape_index(0, 0, MAX_ITER), MAX_ITER);
    assert_eq!(escape_index(0, 0, GRADIENT_MAX_ITER), GRADIENT_MAX_ITER);
}

#[test]
fn period_two_bulb_never_escapes() {
    assert_eq!(escape_index(-ONE, 0, MAX_ITER), MAX_ITER);
}

#[test]
fn one_escapes_quickly() {
    // 0, 1, 2, 5: |5|^2 > 4 at the third step
    assert_eq!(escape_index(ONE, 0, MAX_ITER), 3);
    assert_eq!(escape_index(2 * ONE, 2 * ONE, MAX_ITER), 1);
    assert_eq!(escape_index(ONE, 0, 2), 2);
}

#[test]
fn texcoord_corners_map_to_window() {
    assert_eq!(texcoord_to_complex(0, 0), (-2 * ONE, -3 * ONE / 2));
    assert_eq!(texcoord_to_complex(ONE, ONE), (ONE, 3 * ONE / 2));
}

#[test]
fn gradient_ramp_values() {
    assert_eq!(gradient_color(0, 120), [0, 0, 0, 255]);
    assert_eq!(gradient_color(40, 120), [0, 127, 127, 255]);
    assert_eq!(gradient_color(120, 120), [255, 255, 255, 255]);
    assert_eq!(gradient_color(60, 120), [85, 170, 170, 255]);
}

#[test]
fn shade_by_mode() {
    let p = build_palette(NUM_COLORS);
    assert_eq!(max_iter(ColorMode::Palette), 500);
    assert_eq!(max_iter(ColorMode::Gradient), 120);
    // c = (1, 0): escape index 3, palette entry 3
    assert_eq!(shade(ColorMode::Palette, ONE, ONE / 2, &p), [127, 255, 0, 255]);
    // c = (-1, 0): interior
    assert_eq!(shade(ColorMode::Palette, ONE / 3 + 1, ONE / 2, &p), [0, 0, 0, 255]);
    assert_eq!(shade(ColorMode::Gradient, ONE / 3 + 1, ONE / 2, &p), [255, 255, 255, 255]);
}

#[test]
fn transform_wide_screen() {
    let v = ViewState { zoom: VIEW_ONE, center_x: 0, center_y: 0 };
    assert_eq!(
        view_transform(v, 800, 600),
        ViewTransform { sx: 49152, sy: VIEW_ONE, tx: 0, ty: 0 }
    );
}

#[test]
fn transform_tall_screen_and_translation() {
    let v = ViewState { zoom: VIEW_ONE, center_x: VIEW_ONE, center_y: -VIEW_ONE / 2 };
    assert_eq!(
        view_transform(v, 600, 800),
        ViewTransform { sx: VIEW_ONE, sy: 49152, tx: VIEW_ONE as i128, ty: -24576 }
    );
}

#[test]
fn transform_scale_grows_with_zoom() {
    let mut last = view_transform(ViewState { zoom: 1, center_x: 0, center_y: 0 }, 800, 600);
    for z in [100, 65536, 131072, 1 << 40] {
        let t = view_transform(ViewState { zoom: z, center_x: 0, center_y: 0 }, 800, 600);
        assert!(t.sx >= last.sx && t.sy >= last.sy);
        last = t;
    }
    assert_eq!(last.sy, 1 << 40);
}

#[test]
fn center_anchor_is_zero() {
    assert_eq!(norm_mouse_pos(400, 300, 800, 600), (0, 0));
    assert_eq!(norm_mouse_pos(3, 5, 6, 10), (0, 0));
    assert_eq!(norm_mouse_pos(1, 1, 2, 2), (0, 0));
}

#[test]
fn edge_anchors_are_half() {
    assert_eq!(norm_mouse_pos(0, 0, 800, 600), (-VIEW_ONE / 2, -VIEW_ONE / 2));
    assert_eq!(norm_mouse_pos(800, 600, 800, 600), (VIEW_ONE / 2, VIEW_ONE / 2));
    // x / w - 0.5 = 0.25: 4 * 0.25^3 = 1/16
    assert_eq!(norm_mouse_pos(600, 150, 800, 600), (VIEW_ONE / 16, -VIEW_ONE / 16));
}

#[test]
fn zoom_in_tick_values() {
    let v = ViewState { zoom: VIEW_ONE, center_x: 0, center_y: 0 };
    let t = tick(v, Action::ZoomingIn(VIEW_ONE / 2, 0));
    assert_eq!(t, ViewState { zoom: 66192, center_x: -32443, center_y: 0 });
    let t = tick(v, Action::ZoomingOut(0, VIEW_ONE / 2));
    assert_eq!(t.zoom, 64887);
    assert!(t.center_y < 0);
    assert_eq!(tick(v, Action::Idle), v);
}

#[test]
fn repeated_zoom_in_then_out_restores_zoom() {
    let mut w = Viewer::new();
    w.mouse_button_down_event(MouseButton::Left, 400, 300, 800, 600);
    assert_eq!(w.action, Action::ZoomingIn(0, 0));
    let start = w.view.zoom;
    let mut last = start;
    for _ in 0..50 {
        w.update();
        assert!(w.view.zoom > last);
        last = w.view.zoom;
    }
    w.mouse_button_up_event();
    w.mouse_button_down_event(MouseButton::Right, 700, 100, 800, 600);
    for _ in 0..50 {
        w.update();
        assert!(w.view.zoom < last);
        last = w.view.zoom;
    }
    assert_eq!(w.view.zoom, start);
}

#[test]
fn zoom_is_bounded() {
    let mut v = ViewState { zoom: VIEW_ONE, center_x: 0, center_y: 0 };
    for _ in 0..2000 {
        v = tick(v, Action::ZoomingOut(VIEW_ONE / 2, VIEW_ONE / 2));
        assert!(v.zoom >= MIN_ZOOM);
    }
    assert_eq!(v.zoom, MIN_ZOOM);
    let mut v = ViewState { zoom: MAX_ZOOM - 1, center_x: 0, center_y: 0 };
    v = tick(v, Action::ZoomingIn(0, 0));
    assert_eq!(v.zoom, MAX_ZOOM);
    v = tick(v, Action::ZoomingIn(0, 0));
    assert_eq!(v.zoom, MAX_ZOOM);
}

#[test]
fn center_saturates() {
    let v = ViewState { zoom: MIN_ZOOM, center_x: i64::MIN + 5, center_y: i64::MAX - 5 };
    let t = tick(v, Action::ZoomingOut(-VIEW_ONE / 2, -VIEW_ONE / 2));
    assert_eq!(t.center_x, i64::MIN);
    assert_eq!(t.center_y, i64::MAX);
}

#[test]
fn release_stops_all_motion() {
    let mut w = Viewer::new();
    w.mouse_button_down_event(MouseButton::Right, 10, 20, 800, 600);
    w.update();
    w.mouse_button_up_event();
    assert_eq!(w.action, Action::Idle);
    let before = w.view;
    w.update();
    assert_eq!(w.view, before);
}

#[test]
fn motion_follows_pointer_while_zooming() {
    let mut w = Viewer::new();
    w.mouse_motion_event(0, 0, 800, 600);
    assert_eq!(w.action, Action::Idle);
    w.mouse_button_down_event(MouseButton::Right, 400, 300, 800, 600);
    w.mouse_motion_event(800, 600, 800, 600);
    assert_eq!(w.action, Action::ZoomingOut(VIEW_ONE / 2, VIEW_ONE / 2));
    w.mouse_button_down_event(MouseButton::Middle, 0, 0, 800, 600);
    assert_eq!(w.action, Action::ZoomingOut(VIEW_ONE / 2, VIEW_ONE / 2));
}

#[test]
fn touch_always_zooms_in() {
    let mut w = Viewer::new();
    w.mouse_button_down_event(MouseButton::Right, 400, 300, 800, 600);
    w.touch_event(TouchPhase::Moved, 0, 0, 800, 600);
    assert_eq!(w.action, Action::ZoomingIn(-VIEW_ONE / 2, -VIEW_ONE / 2));
    w.touch_event(TouchPhase::Started, 400, 300, 800, 600);
    assert_eq!(w.action, Action::ZoomingIn(0, 0));
    w.touch_event(TouchPhase::Cancelled, 400, 300, 800, 600);
    assert_eq!(w.action, Action::Idle);
    w.touch_event(TouchPhase::Started, 400, 300, 800, 600);
    w.touch_event(TouchPhase::Ended, 400, 300, 800, 600);
    assert_eq!(w.action, Action::Idle);
}

#[test]
fn viewer_transform_tracks_view() {
    let mut w = Viewer::new();
    assert_eq!(w.transform(800, 600), ViewTransform { sx: 49152, sy: VIEW_ONE, tx: 0, ty: 0 });
    w.touch_event(TouchPhase::Started, 800, 300, 800, 600);
    w.update();
    let t = w.transform(800, 600);
    assert_eq!(t.sy, 66192);
    assert!(t.tx < 0);
}

#[test]
fn frame_ticks_then_packs_uniforms() {
    let mut w = Viewer::new();
    let f = w.frame(800, 600);
    assert_eq!(f, FrameUniforms { transform: ViewTransform { sx: 49152, sy: VIEW_ONE, tx: 0, ty: 0 }, num_colors: 12 });
    w.mouse_button_down_event(MouseButton::Left, 400, 300, 800, 600);
    let f = w.frame(800, 600);
    assert_eq!(w.view.zoom, 66192);
    assert_eq!(f.transform, w.transform(800, 600));
}
