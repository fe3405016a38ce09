use rawblow::binary32::{from_bits, to_bits, B32};
use rawblow::zoom::{display_zoom_ratio, sync_view_mag, ViewMag};

fn b(x: f32) -> B32 {
    from_bits(x.to_bits())
}

fn f(x: B32) -> f32 {
    f32::from_bits(to_bits(x))
}

fn lib_sync(st: &mut ViewMag, zoom: f32, cur_long: f32, last_long: Option<f32>, min_zoom: f32, max_zoom: f32) -> f32 {
    f(sync_view_mag(st, b(zoom), b(cur_long), last_long.map(b), b(min_zoom), b(max_zoom)))
}

fn lib_ratio(zoom: f32, cur_long: f32, ref_long: f32) -> Option<f32> {
    display_zoom_ratio(b(zoom), b(cur_long), b(ref_long)).map(f)
}

/// One frame of the photo view, without a GPU: the texture sizes and the photo area as the
/// viewer has them (the area inset by 32 pixels).
struct Sim {
    zoom: f32,
    fit: bool,
    st: ViewMag,
    last_long: Option<f32>,
    /// Longest texture side seen for this photo.
    seen_long: f32,
    /// Measured long side of the original, once known.
    orig: Option<f32>,
    area: (f32, f32),
}

impl Sim {
    fn new(area: (f32, f32)) -> Self {
        Sim { zoom: 1.0, fit: true, st: ViewMag::default(), last_long: None, seen_long: 0.0, orig: None, area }
    }

    fn with_orig(mut self, orig: f32) -> Self {
        self.orig = Some(orig);
        self
    }

    fn ref_long(&self) -> f32 {
        self.orig.unwrap_or(0.0).max(self.seen_long)
    }

    /// Draws one frame of a `size` texture; returns the screen pixels of the long side.
    fn frame(&mut self, size: (f32, f32)) -> f32 {
        let avail = ((self.area.0 - 32.0).max(1.0), (self.area.1 - 32.0).max(1.0));
        let fit_scale = (avail.0 / size.0).min(avail.1 / size.1);
        if self.fit {
            self.zoom = fit_scale;
        }
        let cur_long = size.0.max(size.1).max(1.0);
        self.seen_long = self.seen_long.max(cur_long);
        let one_to_one = (self.ref_long() / cur_long).max(1.0);
        let min_zoom = fit_scale.min(1.0);
        let max_zoom = (8.0 * one_to_one).max(fit_scale);
        if !self.fit {
            self.zoom = lib_sync(&mut self.st, self.zoom, cur_long, self.last_long, min_zoom, max_zoom);
        }
        self.last_long = Some(cur_long);
        cur_long * self.zoom
    }

    fn shown(&self) -> f32 {
        let cur_long = self.last_long.unwrap_or(0.0);
        lib_ratio(self.zoom, cur_long, self.ref_long()).unwrap_or(0.0)
    }

    /// A click on the photo: fit <-> 1:1.
    fn click(&mut self) {
        if self.fit {
            self.fit = false;
            self.zoom = 1.0;
        } else {
            self.fit = true;
        }
    }

    /// The true 1:1 request: the original's long side in screen pixels.
    fn one_to_one(&mut self, size: (f32, f32)) {
        let avail = ((self.area.0 - 32.0).max(1.0), (self.area.1 - 32.0).max(1.0));
        let fit_scale = (avail.0 / size.0).min(avail.1 / size.1);
        let cur_long = size.0.max(size.1).max(1.0);
        let ref_long = self.ref_long().max(cur_long);
        let one = (ref_long / cur_long).max(1.0);
        let want = ref_long / cur_long;
        let z = want.clamp(fit_scale.min(1.0), (8.0 * one).max(fit_scale));
        self.fit = false;
        self.zoom = z;
        self.st.mag = Some(b(ref_long));
        self.st.pin = if (z - want).abs() > 1e-4 { Some(b(z)) } else { None };
    }

    /// Wheel or pinch zoom to `target`, clamped, re-deciding fit.
    fn wheel_to(&mut self, target: f32, size: (f32, f32)) {
        let avail = ((self.area.0 - 32.0).max(1.0), (self.area.1 - 32.0).max(1.0));
        let fit_scale = (avail.0 / size.0).min(avail.1 / size.1);
        let cur_long = size.0.max(size.1).max(1.0);
        let one_to_one = (self.ref_long().max(cur_long) / cur_long).max(1.0);
        let nz = target.clamp(fit_scale.min(1.0), (8.0 * one_to_one).max(fit_scale));
        self.zoom = nz;
        self.fit = nz <= fit_scale * 1.001;
    }
}

const AREA: (f32, f32) = (1400.0, 900.0);
const PREV: (f32, f32) = (1920.0, 1280.0);
const ORIG: (f32, f32) = (8192.0, 5461.0);
const ORIG_LONG: f32 = 8256.0;
const PREV_REAL: (f32, f32) = (1600.0, 1067.0);

fn approx(a: f32, b: f32, what: &str) {
    assert!((a - b).abs() <= b.abs() * 0.005 + 0.5, "{what}: got {a}, want {b}");
}

#[test]
fn tolerance_is_one_ten_thousandth() {
    assert_eq!(f32::from_bits(0x38d1_b717), 1e-4f32);
}

#[test]
fn view_mag_survives_orig_toggle_at_one_to_one() {
    let mut s = Sim::new(AREA);
    s.frame(PREV);
    s.click();
    let base = s.frame(PREV);
    approx(base, 1920.0, "preview 1:1");
    approx(s.frame(ORIG), base, "to ORIG");
    approx(s.frame(PREV), base, "back to preview");
    approx(s.frame(ORIG), base, "to ORIG again");
}

#[test]
fn view_mag_survives_orig_toggle_at_high_zoom() {
    for target in [1.0_f32, 1.875, 2.0, 4.0, 8.0] {
        let mut s = Sim::new(AREA);
        s.frame(PREV);
        s.frame(ORIG);
        s.wheel_to(target, ORIG);
        let base = s.frame(ORIG);
        approx(base, ORIG.0 * target, &format!("ORIG {target}x"));
        approx(s.frame(PREV), base, &format!("ORIG {target}x to preview"));
        approx(s.frame(ORIG), base, &format!("ORIG {target}x to preview to ORIG"));
    }
}

#[test]
fn view_mag_is_not_destroyed_when_clamped() {
    let mut s = Sim::new((3000.0, 1600.0));
    s.frame(PREV);
    s.click();
    let base = s.frame(PREV);
    approx(base, 1920.0, "preview 1:1");
    let at_orig = s.frame(ORIG);
    assert!(at_orig > base, "ORIG has no smaller zoom and snaps to fit: {at_orig}");
    approx(s.frame(PREV), base, "back on the preview the zoom returns");
}

#[test]
fn view_mag_follows_user_zoom_after_a_clamped_frame() {
    let mut s = Sim::new((3000.0, 1600.0));
    s.frame(PREV);
    s.click();
    s.frame(PREV);
    s.frame(ORIG);
    s.wheel_to(1.0, ORIG);
    let base = s.frame(ORIG);
    approx(base, ORIG.0, "ORIG 1:1");
    approx(s.frame(PREV), base, "the preview then follows the user's zoom");
}

#[test]
fn view_mag_keeps_screen_size_when_orientation_differs() {
    let mut s = Sim::new(AREA);
    s.frame((1280.0, 1920.0));
    s.click();
    let base = s.frame((1280.0, 1920.0));
    approx(s.frame((1920.0, 1280.0)), base, "portrait to landscape texture");
}

#[test]
fn display_zoom_is_stable_across_orig_toggle() {
    let mut s = Sim::new(AREA).with_orig(ORIG_LONG);
    s.frame(PREV);
    s.click();
    s.frame(PREV);
    let (zoom_prev, base) = (s.zoom, s.shown());
    s.frame(ORIG);
    approx(s.shown(), base, "to ORIG, shown zoom");
    let jump = (zoom_prev / s.zoom).max(s.zoom / zoom_prev);
    assert!(jump > 3.0, "texture zoom changes with resolution: {zoom_prev} -> {} ({jump:.2}x)", s.zoom);
    s.frame(PREV);
    approx(s.shown(), base, "to preview, shown zoom");
}

#[test]
fn one_to_one_reaches_true_hundred_percent_on_orig() {
    let mut s = Sim::new(AREA).with_orig(ORIG_LONG);
    s.frame(PREV);
    s.one_to_one(PREV);
    s.frame(PREV);
    approx(s.frame(ORIG), ORIG_LONG, "true 1:1 once ORIG arrives");
    approx(s.frame(PREV) / ORIG_LONG * 100.0, 100.0, "back on the preview it stays 100%");
}

#[test]
fn display_zoom_is_stable_when_exif_understates_original() {
    let mut s = Sim::new(AREA).with_orig(ORIG_LONG);
    let screen_prev = s.frame(PREV_REAL);
    let shown_prev = s.shown();
    let screen_orig = s.frame(ORIG);
    approx(screen_orig, screen_prev, "fit has the same screen size at any resolution");
    approx(s.shown(), shown_prev, "and the same shown zoom");
    approx(shown_prev, screen_prev / ORIG_LONG, "shown zoom = screen long side / original long side");
}

#[test]
fn one_to_one_reaches_hundred_percent_when_exif_understates_original() {
    let mut s = Sim::new(AREA).with_orig(ORIG_LONG);
    s.frame(PREV_REAL);
    s.one_to_one(PREV_REAL);
    s.frame(PREV_REAL);
    approx(s.frame(ORIG), ORIG_LONG, "ORIG arrives: true 1:1");
    approx(s.shown() * 100.0, 100.0, "status bar 100%");
}

#[test]
fn display_zoom_never_exceeds_hundred_at_fit_without_orig_measure() {
    let mut s = Sim::new(AREA);
    s.frame(PREV_REAL);
    assert!(s.shown() <= 1.0 + 1e-3, "fit above 100%: {}", s.shown());
    s.frame(ORIG);
    assert!(s.shown() <= 1.0 + 1e-3, "ORIG fit above 100%: {}", s.shown());
}

#[test]
fn view_mag_recovers_after_a_clamped_carry() {
    let mut st = ViewMag { mag: Some(b(20480.0)), pin: Some(b(8.0)) };
    let z = lib_sync(&mut st, 8.0, 1920.0, Some(1920.0), 0.1, 8.0);
    approx(z, 8.0, "zoom of the pinned preview frame");
    assert_eq!(st.mag.map(f), Some(20480.0), "the cut value must not replace the kept one");
    let z = lib_sync(&mut st, 8.0, 8192.0, Some(1920.0), 0.05, 8.0);
    approx(z * 8192.0, 20480.0, "ORIG arrives: carried zoom restored");
}

#[test]
fn view_mag_ignores_fit_frames() {
    let mut s = Sim::new(AREA);
    let base = s.frame(PREV);
    approx(s.frame(ORIG), base, "fit keeps the screen size at any resolution");
    assert!(s.st.mag.is_none(), "fit frames record no magnification");
}

#[test]
fn display_zoom_ratio_needs_a_reference() {
    assert_eq!(lib_ratio(2.0, 1920.0, 0.0), None);
    assert_eq!(lib_ratio(2.0, 1920.0, 7680.0), Some(0.5));
}
