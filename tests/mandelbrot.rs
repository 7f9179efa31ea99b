use mandelbrot::bigrect::FloatRect;
use mandelbrot::escape::escape_time;
use mandelbrot::navigation::{Command, Effect, Navigator};
use mandelbrot::render::{colorize, escape_counts, render_frame, RenderError, MAX_ITER};
use num::{BigInt, BigRational};

fn q(n: i64, d: i64) -> BigRational {
    BigRational::new(BigInt::from(n), BigInt::from(d))
}

fn whole(n: i64) -> BigRational {
    q(n, 1)
}

fn sine_palette(max_iter: u32) -> Vec<u8> {
    let mut p = Vec::new();
    for i in 0..max_iter {
        let s = i as f64;
        for k in 0..3 {
            p.push(((s * 0.05 + k as f64).sin() * 127.0 + 128.0).round() as u8);
        }
    }
    p
}

fn classic_view() -> FloatRect {
    FloatRect::new(whole(-2), whole(1), whole(3), whole(2))
}

fn same_rect(a: &FloatRect, b: &FloatRect) -> bool {
    a.left == b.left && a.top == b.top && a.width == b.width && a.height == b.height
}

#[test]
fn origin_is_interior_for_every_cap() {
    for max in [0u32, 1, 10, 50, 255] {
        let r = escape_time(&whole(0), &whole(0), max);
        assert_eq!(r.iterations, max);
        assert_eq!(r.re, whole(0));
        assert_eq!(r.im, whole(0));
    }
}

#[test]
fn three_escapes_before_any_update() {
    let r = escape_time(&whole(3), &whole(0), MAX_ITER);
    assert_eq!(r.iterations, 0);
    assert_eq!(r.re, whole(3));
    assert_eq!(r.im, whole(0));
}

#[test]
fn one_escapes_after_two_updates() {
    // 1 -> 2 -> 5: |2|^2 = 4 is not beyond the radius, |5|^2 is.
    let r = escape_time(&whole(1), &whole(0), MAX_ITER);
    assert_eq!(r.iterations, 2);
    assert_eq!(r.re, whole(5));
    assert_eq!(r.im, whole(0));
}

#[test]
fn one_plus_i_escapes_after_one_update() {
    // (1 + i)^2 + (1 + i) = 1 + 3i
    let r = escape_time(&whole(1), &whole(1), MAX_ITER);
    assert_eq!(r.iterations, 1);
    assert_eq!(r.re, whole(1));
    assert_eq!(r.im, whole(3));
}

#[test]
fn cycles_stay_interior() {
    assert_eq!(escape_time(&whole(-1), &whole(0), MAX_ITER).iterations, MAX_ITER);
    assert_eq!(escape_time(&whole(0), &whole(1), MAX_ITER).iterations, MAX_ITER);
    assert_eq!(escape_time(&whole(-2), &whole(0), MAX_ITER).iterations, MAX_ITER);
}

#[test]
fn cap_bounds_the_count() {
    assert_eq!(escape_time(&whole(1), &whole(0), 1).iterations, 1);
    assert_eq!(escape_time(&whole(1), &whole(0), 2).iterations, 2);
    assert_eq!(escape_time(&whole(1), &whole(0), 3).iterations, 2);
}

#[test]
fn corner_pixel_of_small_frame_escapes() {
    // The corner pixel of a 2 by 2 frame over (-2, 1, 3, 2) samples -2 + i.
    let view = classic_view();
    let corner = escape_time(&view.left, &view.top, MAX_ITER);
    assert_eq!(corner.iterations, 0);
    let palette = sine_palette(MAX_ITER);
    let px = colorize(&vec![corner.iterations], MAX_ITER, &palette);
    assert_eq!(px, vec![128, 235, 243, 255]);
    // Its right neighbour samples -1/2 + i: -5/4, then 17/16 + i, then out.
    assert_eq!(escape_time(&q(-1, 2), &whole(1), MAX_ITER).iterations, 3);
}

#[test]
fn small_frame_over_integer_points() {
    // Pixels sample -2 + i, -1 + i, -2 and -1, whose orbits stay integral.
    let view = FloatRect::new(whole(-2), whole(1), whole(2), whole(2));
    let counts = escape_counts(2, 2, &view, MAX_ITER);
    assert_eq!(counts, vec![0, 2, MAX_ITER, MAX_ITER]);
    let palette = sine_palette(MAX_ITER);
    let buf = render_frame(2, 2, &view, &palette).unwrap();
    assert_eq!(buf.len(), 16);
    assert_eq!(&buf[0..4], &[128, 235, 243, 255]);
    assert_eq!(&buf[4..8], &[palette[6], palette[7], palette[8], 255]);
    assert_eq!(&buf[8..16], &[0, 0, 0, 255, 0, 0, 0, 255]);
}

#[test]
fn frame_buffer_has_four_bytes_per_pixel() {
    let palette = sine_palette(MAX_ITER);
    let view = FloatRect::new(whole(2), whole(3), whole(1), whole(1));
    for (w, h) in [(1u32, 1u32), (3, 1), (1, 3), (4, 3)] {
        let buf = render_frame(w, h, &view, &palette).unwrap();
        assert_eq!(buf.len(), (4 * w * h) as usize);
        for px in buf.chunks(4) {
            assert_eq!(px[3], 255);
        }
    }
}

#[test]
fn empty_surface_is_refused() {
    let palette = sine_palette(MAX_ITER);
    let view = classic_view();
    assert_eq!(render_frame(0, 2, &view, &palette), Err(RenderError::EmptySurface));
    assert_eq!(render_frame(2, 0, &view, &palette), Err(RenderError::EmptySurface));
}

#[test]
fn degenerate_viewport_is_refused() {
    let palette = sine_palette(MAX_ITER);
    let flat = FloatRect::new(whole(-2), whole(1), whole(3), whole(0));
    assert_eq!(render_frame(2, 2, &flat, &palette), Err(RenderError::DegenerateViewport));
    let reversed = FloatRect::new(whole(-2), whole(1), whole(-3), whole(2));
    assert_eq!(render_frame(2, 2, &reversed, &palette), Err(RenderError::DegenerateViewport));
    assert!(!flat.is_well_formed());
    assert!(classic_view().is_well_formed());
}

#[test]
fn interior_pixels_are_opaque_black() {
    let palette = sine_palette(4);
    let buf = colorize(&vec![4, 0, 3, 9], 4, &palette);
    assert_eq!(buf.len(), 16);
    assert_eq!(&buf[0..4], &[0, 0, 0, 255]);
    assert_eq!(&buf[4..8], &[palette[0], palette[1], palette[2], 255]);
    assert_eq!(&buf[8..12], &[palette[9], palette[10], palette[11], 255]);
    assert_eq!(&buf[12..16], &[0, 0, 0, 255]);
}

#[test]
fn colouring_is_deterministic() {
    let palette = sine_palette(MAX_ITER);
    let view = FloatRect::new(whole(-2), whole(1), whole(3), whole(1));
    let a = render_frame(3, 1, &view, &palette).unwrap();
    let b = render_frame(3, 1, &view, &palette).unwrap();
    assert_eq!(a, b);
}

#[test]
fn default_view_fits_the_surface() {
    let v = FloatRect::default_view(4, 2);
    assert_eq!(v.left, q(-11, 4));
    assert_eq!(v.width, q(9, 2));
    assert_eq!(v.height, q(9, 4));
    assert_eq!(v.top, q(9, 8));
}

#[test]
fn zoom_centres_on_the_click() {
    let mut nav = Navigator::new(FloatRect::new(whole(-2), whole(2), whole(4), whole(4)));
    nav.zoom_in(50, 25, 100, 100, &q(1, 4));
    let v = nav.current();
    assert_eq!(v.width, whole(1));
    assert_eq!(v.height, whole(1));
    // 1/2 * 4 - 2 - 1/2
    assert_eq!(v.left, q(-1, 2));
    // 2 - 1/4 * 4 + 1/2
    assert_eq!(v.top, q(3, 2));
    assert_eq!(nav.depth(), 2);
}

#[test]
fn undo_after_zoom_restores_the_view() {
    let mut nav = Navigator::new(classic_view());
    nav.zoom_in(10, 20, 40, 30, &q(1, 4));
    nav.zoom_in(3, 7, 40, 30, &q(1, 2));
    let before = nav.current().clone();
    assert_eq!(&before, nav.current());
    nav.zoom_in(39, 0, 40, 30, &q(1, 4));
    assert!(!same_rect(nav.current(), &before));
    nav.undo();
    assert!(same_rect(nav.current(), &before));
    assert_eq!(nav.current(), &before);
    assert_eq!(nav.depth(), 3);
}

#[test]
fn undo_at_root_changes_nothing() {
    let mut nav = Navigator::new(classic_view());
    for _ in 0..5 {
        nav.undo();
        assert!(same_rect(nav.current(), &classic_view()));
        assert_eq!(nav.depth(), 1);
    }
    nav.zoom_in(1, 1, 2, 2, &q(1, 4));
    nav.undo();
    nav.undo();
    assert!(same_rect(nav.current(), &classic_view()));
}

fn float_escape(a: f64, b: f64, max: u32) -> u32 {
    let (mut zr, mut zi) = (a, b);
    let mut i = 0;
    while i < max {
        if zr * zr + zi * zi > 4.0 {
            break;
        }
        let t = zr * zr - zi * zi + a;
        zi = 2.0 * zr * zi + b;
        zr = t;
        i += 1;
    }
    i
}

#[test]
fn exact_counts_agree_with_floating_point_away_from_the_boundary() {
    let points = [
        (0, 1, 0, 1),
        (-1, 1, 0, 1),
        (-2, 1, 0, 1),
        (0, 1, 1, 1),
        (1, 1, 0, 1),
        (1, 2, 1, 2),
        (-3, 2, 1, 1),
        (1, 1, 1, 1),
        (3, 1, 0, 1),
    ];
    for (rn, rd, in_, id) in points {
        let exact = escape_time(&q(rn, rd), &q(in_, id), 50).iterations;
        let fast = float_escape(rn as f64 / rd as f64, in_ as f64 / id as f64, 50);
        assert_eq!(exact, fast);
    }
}

#[test]
fn commands_drive_the_history() {
    let zf = q(1, 4);
    let mut nav = Navigator::new(FloatRect::new(whole(-2), whole(2), whole(4), whole(4)));
    assert_eq!(nav.handle(Command::Undo, 100, 100, &zf), Effect::Nothing);
    assert_eq!(nav.handle(Command::ZoomIn { x: -1, y: 5 }, 100, 100, &zf), Effect::Nothing);
    assert_eq!(nav.handle(Command::ZoomIn { x: 100, y: 5 }, 100, 100, &zf), Effect::Nothing);
    assert_eq!(nav.depth(), 1);
    assert_eq!(nav.handle(Command::ZoomIn { x: 50, y: 25 }, 100, 100, &zf), Effect::Redraw);
    assert_eq!(nav.depth(), 2);
    assert_eq!(nav.current().left, q(-1, 2));
    assert_eq!(nav.current().top, q(3, 2));
    assert_eq!(nav.handle(Command::SaveSnapshot, 100, 100, &zf), Effect::Save);
    assert_eq!(nav.handle(Command::Quit, 100, 100, &zf), Effect::Close);
    assert_eq!(nav.depth(), 2);
    assert_eq!(nav.handle(Command::Undo, 100, 100, &zf), Effect::Redraw);
    assert_eq!(nav.depth(), 1);
    assert_eq!(nav.current().left, whole(-2));
}

#[test]
fn zero_denominator_viewport_is_refused() {
    let palette = sine_palette(MAX_ITER);
    let broken = FloatRect::new(whole(-2), whole(1), BigRational::new_raw(BigInt::from(3), BigInt::from(0)), whole(2));
    assert!(!broken.is_well_formed());
    assert_eq!(render_frame(2, 2, &broken, &palette), Err(RenderError::DegenerateViewport));
    let broken_left = FloatRect::new(BigRational::new_raw(BigInt::from(1), BigInt::from(0)), whole(1), whole(3), whole(2));
    assert_eq!(render_frame(2, 2, &broken_left, &palette), Err(RenderError::DegenerateViewport));
}

#[test]
fn invalid_zoom_factor_is_ignored() {
    let mut nav = Navigator::new(classic_view());
    let no_ratio = BigRational::new_raw(BigInt::from(1), BigInt::from(0));
    assert_eq!(nav.handle(Command::ZoomIn { x: 1, y: 1 }, 4, 4, &no_ratio), Effect::Nothing);
    assert_eq!(nav.handle(Command::ZoomIn { x: 1, y: 1 }, 4, 4, &whole(0)), Effect::Nothing);
    assert_eq!(nav.handle(Command::ZoomIn { x: 1, y: 1 }, 4, 4, &q(-1, 4)), Effect::Nothing);
    assert_eq!(nav.depth(), 1);
    assert_eq!(nav.current(), &classic_view());
    assert_eq!(nav.handle(Command::ZoomIn { x: 1, y: 1 }, 4, 4, &q(1, 4)), Effect::Redraw);
    assert_eq!(nav.depth(), 2);
}

#[test]
fn cloned_view_keeps_its_values() {
    let v = FloatRect::default_view(3, 2);
    let c = v.clone();
    assert_eq!(c, v);
    assert!(c.is_well_formed());
    assert_eq!(c.height, q(3, 1));
}

fn raw(n: i64, d: i64) -> BigRational {
    BigRational::new_raw(BigInt::from(n), BigInt::from(d))
}

#[test]
fn negative_denominator_viewport_is_judged_by_value() {
    let palette = sine_palette(MAX_ITER);
    // width 1 / -1 is -1: not a viewport.
    let negative = FloatRect::new(whole(-2), whole(1), raw(1, -1), whole(2));
    assert!(!negative.is_well_formed());
    assert_eq!(render_frame(2, 2, &negative, &palette), Err(RenderError::DegenerateViewport));
    // width -3 / -1 and height -2 / -1 are 3 and 2: a viewport.
    let positive = FloatRect::new(whole(-2), whole(1), raw(-3, -1), raw(-2, -1));
    assert!(positive.is_well_formed());
    let buf = render_frame(1, 1, &positive, &palette).unwrap();
    assert_eq!(buf, vec![128, 235, 243, 255]);
}

#[test]
fn negative_denominator_zoom_factor_is_judged_by_value() {
    let mut nav = Navigator::new(FloatRect::new(whole(-2), whole(2), whole(4), whole(4)));
    assert_eq!(nav.handle(Command::ZoomIn { x: 50, y: 25 }, 100, 100, &raw(1, -4)), Effect::Nothing);
    assert_eq!(nav.depth(), 1);
    assert_eq!(nav.handle(Command::ZoomIn { x: 50, y: 25 }, 100, 100, &raw(-1, -4)), Effect::Redraw);
    assert_eq!(nav.depth(), 2);
    assert_eq!(nav.current().width, whole(1));
    assert_eq!(nav.current().left, q(-1, 2));
    assert_eq!(nav.current().top, q(3, 2));
}

#[test]
fn negative_denominator_point_escapes_by_value() {
    // -3 / -1 is 3: out at once; -1 / -1 with 0 is 1: out after two updates.
    assert_eq!(escape_time(&raw(-3, -1), &whole(0), MAX_ITER).iterations, 0);
    let r = escape_time(&raw(-1, -1), &raw(0, -5), MAX_ITER);
    assert_eq!(r.iterations, 2);
    assert_eq!(r.re, whole(5));
}
