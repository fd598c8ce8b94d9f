//! A fixed 16:9 viewport context: an earlier, self-contained form of the
//! camera geometry, kept for callers that only need the pixel grid of a
//! simple axis-aligned viewpoint.

use vstd::prelude::*;
use crate::fixed::{div_fx, fx_div, fx_div_int, fx_from_u32, fx_mul, mul_fx, tdiv, HALF, SCALE};
use crate::vec3::{v_wf, vadd_s, vdiv_scalar_s, vscale_s, vsub_s, Vec3};

verus! {

/// The nominal 16:9 aspect ratio, as a scalar.
pub const AR_16_9: i64 = 116508;

/// Pixel-grid geometry for an axis-aligned 16:9 viewport one focal length
/// down the negative z-axis.
#[derive(Clone, Copy, PartialEq, Eq, Structural, Debug)]
pub struct SceneContext {
    pub px00_loc: Vec3,
    pub pixel_delta_u: Vec3,
    pub pixel_delta_v: Vec3,
    pub camera_center: Vec3,
    pub width: u32,
    pub height: u32,
}

/// The width actually used: a zero configuration is clamped to one pixel
/// rather than failing.
pub open spec fn ctx_width_s(width: u32) -> int {
    if width < 1 {
        1
    } else {
        width as int
    }
}

/// The derived image height: the truncated ratio of width to 16:9, at
/// least one pixel.
pub open spec fn ctx_height_s(width: u32) -> int {
    let h = tdiv(ctx_width_s(width) * (SCALE as int), AR_16_9 as int);
    if h < 1 {
        1
    } else {
        h
    }
}

/// The viewport width: the viewport height (2) scaled by the actual ratio
/// of the integer pixel counts, recomputed from width and height so the
/// viewport does not drift from the pixel grid.
pub open spec fn ctx_viewport_width_s(width: u32) -> int {
    mul_fx(
        2 * SCALE as int,
        div_fx(ctx_width_s(width) * (SCALE as int), ctx_height_s(width) * (SCALE as int)),
    )
}

/// The horizontal pixel step.
pub open spec fn ctx_pixel_delta_u_s(width: u32) -> (int, int, int) {
    vdiv_scalar_s((ctx_viewport_width_s(width), 0, 0), ctx_width_s(width) * (SCALE as int))
}

/// The vertical pixel step (downward).
pub open spec fn ctx_pixel_delta_v_s(width: u32) -> (int, int, int) {
    vdiv_scalar_s((0, -2 * (SCALE as int), 0), ctx_height_s(width) * (SCALE as int))
}

/// The location of pixel (0, 0).
pub open spec fn ctx_px00_s(width: u32, center: (int, int, int)) -> (int, int, int) {
    let vu = (ctx_viewport_width_s(width), 0, 0);
    let vv = (0, -2 * (SCALE as int), 0);
    let upper_left = vsub_s(
        vsub_s(
            vsub_s(center, (0, 0, SCALE as int)),
            vdiv_scalar_s(vu, 2 * SCALE as int),
        ),
        vdiv_scalar_s(vv, 2 * SCALE as int),
    );
    vadd_s(upper_left, vscale_s(vadd_s(ctx_pixel_delta_u_s(width), ctx_pixel_delta_v_s(width)), HALF as int))
}

impl SceneContext {
    /// Derives the grid geometry for the given image width and camera
    /// center.
    pub fn new(image_width: u32, camera_center: Vec3) -> (r: SceneContext)
        requires
            ctx_height_s(image_width) <= u32::MAX,
            v_wf(camera_center@),
        ensures
            r.width as int == ctx_width_s(image_width),
            r.height as int == ctx_height_s(image_width),
            r.camera_center == camera_center,
            r.pixel_delta_u@ == ctx_pixel_delta_u_s(image_width),
            r.pixel_delta_v@ == ctx_pixel_delta_v_s(image_width),
            r.px00_loc@ == ctx_px00_s(image_width, camera_center@),
    {
        // a zero configured size never fails: it is clamped to one pixel
        let image_width = if image_width < 1 {
            1
        } else {
            image_width
        };
        let w_fx = fx_from_u32(image_width);
        let mut image_height = fx_div_int(w_fx, AR_16_9);
        if image_height < 1 {
            image_height = 1;
        }
        let h_u32 = image_height as u32;
        let h_fx = fx_from_u32(h_u32);

        // the viewport height is 2 (one focal length, 90 degree fov); its
        // width follows the actual integer pixel ratio, not the nominal one
        let actual_aspect_ratio = fx_div(w_fx, h_fx);
        let viewport_width = fx_mul(2 * SCALE, actual_aspect_ratio);

        let viewport_u = Vec3 { x: viewport_width, y: 0, z: 0 };
        let viewport_v = Vec3 { x: 0, y: -2 * SCALE, z: 0 };

        let pixel_delta_u = viewport_u.div_scalar(w_fx);
        let pixel_delta_v = viewport_v.div_scalar(h_fx);

        let viewport_upper_left = camera_center
            .sub(&Vec3 { x: 0, y: 0, z: SCALE })
            .sub(&viewport_u.div_scalar(2 * SCALE))
            .sub(&viewport_v.div_scalar(2 * SCALE));

        let pixel00_loc = viewport_upper_left.add(
            &pixel_delta_u.add(&pixel_delta_v).scale(HALF),
        );

        SceneContext {
            px00_loc: pixel00_loc,
            pixel_delta_u,
            pixel_delta_v,
            camera_center,
            width: image_width,
            height: h_u32,
        }
    }
}

} // verus!
