//! Keeping the on-screen magnification of a photo while its texture changes resolution
//! (fast preview against original, or a rotated texture), and the zoom shown to the user,
//! in binary32 as the viewer computes them.
//!
//! `zoom` is screen pixels per texture pixel, so the same value means different sizes for
//! a 1920-pixel preview and an 8192-pixel original. What is kept is `mag`, the screen
//! pixels taken by the long side, which does not depend on the texture.

use crate::binary32::{
    abs, absolute, clamp, clamp_spec, from_bits, from_bits_spec, from_u32, gt, half_of, lt,
    lt_spec, max, max_spec, minus, minus_val, quotient, quotient_val, rounded, times,
    times_val, unit, wf, B32,
};
use vstd::prelude::*;

verus! {

/// The magnification kept for the photo on screen.
#[derive(Clone, Copy, Debug, PartialEq, Eq, Structural)]
pub struct ViewMag {
    /// Screen pixels the long side should take; kept only while not fitted to the window.
    pub mag: Option<B32>,
    /// The zoom actually used on a frame where `mag` could not be reached within the
    /// zoom limits. When the zoom moves away from it, the user zoomed and the pin is let go.
    pub pin: Option<B32>,
}

impl Default for ViewMag {
    fn default() -> (v: ViewMag)
        ensures
            v.mag is None,
            v.pin is None,
    {
        ViewMag { mag: None, pin: None }
    }
}

/// `1e-4` as binary32.
pub open spec fn tolerance() -> B32 {
    from_bits_spec(0x38d1_b717)
}

/// `a <= b`: false when either is NaN.
pub open spec fn le_spec(a: B32, b: B32) -> bool {
    !(a is NaN) && !(b is NaN) && !lt_spec(b, a)
}

/// Every value carried is a canonical binary32.
pub open spec fn mag_wf(st: ViewMag) -> bool {
    &&& (st.mag matches Some(v) ==> wf(v))
    &&& (st.pin matches Some(v) ==> wf(v))
}

/// The texture's long side changed by more than half a pixel since the last frame.
pub open spec fn size_changed(cur_long: B32, last_long: Option<B32>) -> bool {
    match last_long {
        Some(prev) => lt_spec(rounded(false, unit(-1)), absolute(minus_val(prev, cur_long))),
        None => false,
    }
}

/// The zoom still is the pinned one (within `1e-4`).
pub open spec fn still_pinned(pin: Option<B32>, zoom: B32) -> bool {
    match pin {
        Some(z) => le_spec(absolute(minus_val(zoom, z)), tolerance()),
        None => false,
    }
}

/// The zoom to reproduce `mag` on a texture whose long side is `cur_long` (at least 1).
pub open spec fn wanted_zoom(mag: B32, cur_long: B32) -> B32 {
    quotient_val(mag, max_spec(cur_long, rounded(false, 1 * unit(0))))
}

/// One frame: when the texture size changed and a magnification is kept, the zoom that
/// reproduces it within the limits (pinned when a limit cut it); otherwise the zoom is the
/// user's, and unless it is still the pinned one it becomes the new magnification.
pub open spec fn sync_model(
    st: ViewMag,
    zoom: B32,
    cur_long: B32,
    last_long: Option<B32>,
    min_zoom: B32,
    max_zoom: B32,
) -> (ViewMag, B32) {
    let pinned = still_pinned(st.pin, zoom);
    let pin = if pinned {
        st.pin
    } else {
        None
    };
    match st.mag {
        Some(mag) if size_changed(cur_long, last_long) => {
            let want = wanted_zoom(mag, cur_long);
            let z = clamp_spec(want, min_zoom, max_zoom);
            (
                ViewMag {
                    mag: st.mag,
                    pin: if lt_spec(tolerance(), absolute(minus_val(z, want))) {
                        Some(z)
                    } else {
                        None
                    },
                },
                z,
            )
        },
        _ => if !pinned {
            (ViewMag { mag: Some(times_val(cur_long, zoom)), pin }, zoom)
        } else {
            (ViewMag { mag: st.mag, pin }, zoom)
        },
    }
}

/// `a <= b`.
fn le(a: B32, b: B32) -> (r: bool)
    requires
        wf(a),
        wf(b),
    ensures
        r == le_spec(a, b),
{
    !matches!(a, B32::NaN) && !matches!(b, B32::NaN) && !lt(b, a)
}

/// The zoom to show, where 1 is one original pixel per screen pixel: the long side's screen
/// size over the original's long side (`ref_long`); none while that is unknown (0).
pub fn display_zoom_ratio(zoom: B32, cur_long: B32, ref_long: B32) -> (r: Option<B32>)
    requires
        wf(zoom),
        wf(cur_long),
        wf(ref_long),
    ensures
        r == (if lt_spec(rounded(false, 0 * unit(0)), ref_long) {
            Some(quotient_val(times_val(cur_long, zoom), ref_long))
        } else {
            None
        }),
{
    if gt(ref_long, from_u32(0)) {
        Some(quotient(times(cur_long, zoom), ref_long))
    } else {
        None
    }
}

/// The zoom for this frame; `st` moves on to what the next frame compares with.
/// `last_long` is the long side of the previous frame's texture (none on a photo's first
/// frame). Clamping to the limits needs `min_zoom <= max_zoom` when it happens.
pub fn sync_view_mag(
    st: &mut ViewMag,
    zoom: B32,
    cur_long: B32,
    last_long: Option<B32>,
    min_zoom: B32,
    max_zoom: B32,
) -> (z: B32)
    requires
        mag_wf(*old(st)),
        wf(zoom),
        wf(cur_long),
        wf(min_zoom),
        wf(max_zoom),
        last_long matches Some(v) ==> wf(v),
        old(st).mag is Some && size_changed(cur_long, last_long) ==> le_spec(min_zoom, max_zoom),
    ensures
        mag_wf(*final(st)),
        wf(z),
        (*final(st), z) == sync_model(*old(st), zoom, cur_long, last_long, min_zoom, max_zoom),
{
    let half = half_of(1);
    let tol = from_bits(0x38d1_b717);
    let changed = match last_long {
        Some(prev) => gt(abs(minus(prev, cur_long)), half),
        None => false,
    };
    let pinned = match st.pin {
        Some(p) => le(abs(minus(zoom, p)), tol),
        None => false,
    };
    if !pinned {
        st.pin = None;
    }
    match st.mag {
        Some(mag) => {
            if changed {
                let want = quotient(mag, max(cur_long, from_u32(1)));
                let z = clamp(want, min_zoom, max_zoom);
                st.pin = if gt(abs(minus(z, want)), tol) {
                    Some(z)
                } else {
                    None
                };
                return z;
            }
        },
        None => {},
    }
    if !pinned {
        st.mag = Some(times(cur_long, zoom));
    }
    zoom
}

/// A change of texture (preview against original) never replaces the magnification kept:
/// a zoom cut by the limits on this frame does not become the new reference.
pub proof fn law_texture_change_keeps_magnification(
    st: ViewMag,
    zoom: B32,
    cur_long: B32,
    last_long: Option<B32>,
    min_zoom: B32,
    max_zoom: B32,
)
    requires
        st.mag is Some,
        size_changed(cur_long, last_long),
    ensures
        sync_model(st, zoom, cur_long, last_long, min_zoom, max_zoom).0.mag == st.mag,
{
}

/// On a frame of the same texture, a zoom the user moved (not the pinned one) is kept as
/// is and becomes the magnification to keep.
pub proof fn law_user_zoom_becomes_magnification(
    st: ViewMag,
    zoom: B32,
    cur_long: B32,
    last_long: Option<B32>,
    min_zoom: B32,
    max_zoom: B32,
)
    requires
        !size_changed(cur_long, last_long),
        !still_pinned(st.pin, zoom),
    ensures
        sync_model(st, zoom, cur_long, last_long, min_zoom, max_zoom).1 == zoom,
        sync_model(st, zoom, cur_long, last_long, min_zoom, max_zoom).0 == (ViewMag {
            mag: Some(times_val(cur_long, zoom)),
            pin: None,
        }),
{
}

} // verus!
