//! Camera state for the interactive viewport: screen/world conversion,
//! zoom-anchored scaling and boundary-clamped panning.
//!
//! All quantities are fixed-point grid values (see `fixed`). `screen2world`
//! divides directly by the zoom factor rather than multiplying by a rounded
//! reciprocal, and `update_zoom` reuses that same rounded quotient, which
//! makes the zoom-anchor invariant hold exactly: the world point under the
//! anchor pixel is unchanged by a zoom update, grid unit for grid unit.
use crate::fixed::{
    clamp_i128, clamp_spec, div_floor_i128, fx_div, fx_mul, isqrt_u64, lemma_div_floor_magnitude,
    lemma_mul_magnitude, lemma_sqrt_floor, sqrt_floor, WorldVec, FX_ONE,
};
use vstd::arithmetic::div_mod::lemma_fundamental_div_mod;
use vstd::prelude::*;

verus! {

/// Every legal zoom is strictly above this (half a world unit per pixel).
pub const ZOOM_FLOOR: i64 = 32768;

/// Largest representable zoom (a 65536-fold world magnification, in grid
/// units).
pub const ZOOM_CAP: i64 = 0x100000000;

/// Largest representable center coordinate magnitude.
pub const CENTER_CAP: i64 = 0x100000000000000;

/// Largest pixel coordinate magnitude a conversion accepts.
pub const PIXEL_CAP: i64 = 0x800000000000;

/// Largest pan-step multiplier magnitude.
pub const STEP_MULTIPLIER_CAP: i64 = 0x10000000000;

/// Default zoom lower bound (0.75).
pub const DEFAULT_MIN_ZOOM: i64 = 49152;

/// Default zoom upper bound (36).
pub const DEFAULT_MAX_ZOOM: i64 = 2359296;

/// Default relative zoom step (about 0.16).
pub const DEFAULT_ZOOM_STEP: i64 = 10486;

/// Default pan-step multiplier (24).
pub const DEFAULT_TRANSLATE_STEP_MULTIPLIER: i64 = 1572864;

/// An axis-aligned pan direction.
pub enum TranslateDir {
    Left,
    Right,
    Up,
    Down,
}

/// Description of the orthographic camera the renderer should use, all
/// components in grid units.
#[derive(Clone, Copy, Debug, PartialEq, Eq, Structural)]
pub struct CameraParams {
    pub eye_x: i64,
    pub eye_y: i64,
    pub eye_z: i64,
    pub target_x: i64,
    pub target_y: i64,
    pub target_z: i64,
    pub up_x: i64,
    pub up_y: i64,
    pub up_z: i64,
    pub height: i64,
    pub near: i64,
    pub far: i64,
}

/// Camera state: the world point the viewport is centered on and the zoom
/// factor, plus the configuration that bounds them (the device pixel ratio
/// rides along for the shell's window setup).
pub struct WindowTransform {
    pub center: WorldVec,
    pub zoom: i64,
    pub resolution: (u32, u32),
    pub resolution_ratio: i64,
    pub min_zoom: i64,
    pub max_zoom: i64,
    pub translate_min: WorldVec,
    pub translate_max: WorldVec,
    pub zoom_step: i64,
    pub translate_step_multiplier: i64,
}

impl WindowTransform {
    /// Well-formedness: zoom and center are inside the representable window
    /// and the configured bounds are ordered.
    pub open spec fn wf(self) -> bool {
        &&& ZOOM_FLOOR < self.zoom <= ZOOM_CAP
        &&& ZOOM_FLOOR < self.min_zoom < self.max_zoom <= ZOOM_CAP
        &&& -CENTER_CAP <= self.center.x <= CENTER_CAP
        &&& -CENTER_CAP <= self.center.y <= CENTER_CAP
        &&& -CENTER_CAP <= self.translate_min.x <= self.translate_max.x <= CENTER_CAP
        &&& -CENTER_CAP <= self.translate_min.y <= self.translate_max.y <= CENTER_CAP
        &&& 0 <= self.zoom_step < FX_ONE
        &&& 0 <= self.translate_step_multiplier <= STEP_MULTIPLIER_CAP
        &&& 0 < self.resolution_ratio <= 16 * FX_ONE
    }

    /// The two transforms share every configuration field.
    pub open spec fn same_config(self, other: WindowTransform) -> bool {
        &&& self.resolution == other.resolution
        &&& self.resolution_ratio == other.resolution_ratio
        &&& self.min_zoom == other.min_zoom
        &&& self.max_zoom == other.max_zoom
        &&& self.translate_min == other.translate_min
        &&& self.translate_max == other.translate_max
        &&& self.zoom_step == other.zoom_step
        &&& self.translate_step_multiplier == other.translate_step_multiplier
    }

    /// Horizontal pixel center of the viewport, in grid units.
    pub open spec fn spec_mid_x(self) -> int {
        (self.resolution.0 as int / 2) * (FX_ONE as int)
    }

    /// Vertical pixel center of the viewport, in grid units.
    pub open spec fn spec_mid_y(self) -> int {
        (self.resolution.1 as int / 2) * (FX_ONE as int)
    }

    /// World x coordinate under the pixel x coordinate `px`.
    pub open spec fn spec_screen2world_x(self, px: int) -> int {
        self.center.x + fx_div(px - self.spec_mid_x(), self.zoom as int)
    }

    /// World y coordinate under the pixel y coordinate `py`.
    pub open spec fn spec_screen2world_y(self, py: int) -> int {
        self.center.y + fx_div(py - self.spec_mid_y(), self.zoom as int)
    }

    /// Pixel x coordinate of the world x coordinate `wx`.
    pub open spec fn spec_world2screen_x(self, wx: int) -> int {
        self.spec_mid_x() + fx_mul(wx - self.center.x, self.zoom as int)
    }

    /// Pixel y coordinate of the world y coordinate `wy`.
    pub open spec fn spec_world2screen_y(self, wy: int) -> int {
        self.spec_mid_y() + fx_mul(wy - self.center.y, self.zoom as int)
    }

    /// Reciprocal of the zoom factor, in grid units.
    pub open spec fn spec_scale(self) -> int {
        fx_div(FX_ONE as int, self.zoom as int)
    }

    /// The center coordinate a zoom update moves to on one axis: the anchor
    /// pixel's rounded world offset under the old zoom is swapped for the one
    /// under the new zoom, then the result is kept representable.
    pub open spec fn spec_anchor_center(c: int, q: int, old_zoom: int, new_zoom: int) -> int {
        clamp_spec(
            c + fx_div(q, old_zoom) - fx_div(q, new_zoom),
            -(CENTER_CAP as int),
            CENTER_CAP as int,
        )
    }

    /// Zoom factor `zoom_in` moves to: grow by the relative step, capped at
    /// `max_zoom`.
    pub open spec fn spec_zoom_in_target(self) -> int {
        let grown = fx_mul(self.zoom as int, FX_ONE as int + self.zoom_step as int);
        if grown > self.max_zoom as int {
            self.max_zoom as int
        } else {
            grown
        }
    }

    /// Zoom factor `zoom_out` moves to: shrink by the relative step, floored
    /// at `min_zoom`.
    pub open spec fn spec_zoom_out_target(self) -> int {
        let shrunk = fx_mul(self.zoom as int, FX_ONE as int - self.zoom_step as int);
        if shrunk < self.min_zoom as int {
            self.min_zoom as int
        } else {
            shrunk
        }
    }

    /// Pan distance per key press: the multiplier divided by the square root
    /// of the zoom, so the apparent on-screen pan speed stays roughly
    /// constant.
    pub open spec fn spec_translate_step(self) -> int {
        fx_div(
            self.translate_step_multiplier as int,
            sqrt_floor((self.zoom * FX_ONE) as nat) as int,
        )
    }

    /// Fresh camera centered on the middle of the plot, with the default
    /// zoom configuration and the pan clamp box covering the plot.
    pub fn new(resolution: (u32, u32)) -> (t: WindowTransform)
        ensures
            t.wf(),
            t.resolution == resolution,
            t.center.x == (resolution.0 as int / 2) * (FX_ONE as int),
            t.center.y == (resolution.1 as int / 2) * (FX_ONE as int),
            t.zoom == FX_ONE,
            t.resolution_ratio == FX_ONE,
            t.min_zoom == DEFAULT_MIN_ZOOM,
            t.max_zoom == DEFAULT_MAX_ZOOM,
            t.translate_min == (WorldVec { x: 0, y: 0 }),
            t.translate_max.x == resolution.0 as int * FX_ONE as int,
            t.translate_max.y == resolution.1 as int * FX_ONE as int,
            t.zoom_step == DEFAULT_ZOOM_STEP,
            t.translate_step_multiplier == DEFAULT_TRANSLATE_STEP_MULTIPLIER,
    {
        WindowTransform {
            center: WorldVec {
                x: (resolution.0 / 2) as i64 * FX_ONE,
                y: (resolution.1 / 2) as i64 * FX_ONE,
            },
            zoom: FX_ONE,
            resolution,
            resolution_ratio: FX_ONE,
            min_zoom: DEFAULT_MIN_ZOOM,
            max_zoom: DEFAULT_MAX_ZOOM,
            translate_min: WorldVec { x: 0, y: 0 },
            translate_max: WorldVec {
                x: resolution.0 as i64 * FX_ONE,
                y: resolution.1 as i64 * FX_ONE,
            },
            zoom_step: DEFAULT_ZOOM_STEP,
            translate_step_multiplier: DEFAULT_TRANSLATE_STEP_MULTIPLIER,
        }
    }

    /// Replace the zoom bounds. The bounds must be ordered, the lower one
    /// above half, the upper one above two (and representable).
    pub fn set_zoom_limits(&mut self, low: i64, high: i64)
        requires
            old(self).wf(),
            low < high,
            low > ZOOM_FLOOR,
            high > 2 * FX_ONE,
            high <= ZOOM_CAP,
        ensures
            final(self).wf(),
            final(self).min_zoom == low,
            final(self).max_zoom == high,
            final(self).center == old(self).center,
            final(self).zoom == old(self).zoom,
            final(self).resolution == old(self).resolution,
            final(self).translate_min == old(self).translate_min,
            final(self).translate_max == old(self).translate_max,
            final(self).zoom_step == old(self).zoom_step,
            final(self).translate_step_multiplier == old(self).translate_step_multiplier,
            final(self).resolution_ratio == old(self).resolution_ratio,
    {
        self.min_zoom = low;
        self.max_zoom = high;
    }

    /// Reciprocal of the zoom factor, in grid units.
    pub fn scale(&self) -> (s: i64)
        requires
            self.wf(),
        ensures
            s == self.spec_scale(),
            0 < s < 2 * FX_ONE,
    {
        let s128: i128 = div_floor_i128((FX_ONE as i128) * (FX_ONE as i128), self.zoom as i128);
        proof {
            assert(1 <= s128 < 2 * FX_ONE) by (nonlinear_arith)
                requires
                    ZOOM_FLOOR < self.zoom <= ZOOM_CAP,
                    (self.zoom as int) * (s128 as int) <= (FX_ONE as int) * (FX_ONE as int) < (
                    self.zoom as int) * (s128 as int + 1),
                    ZOOM_FLOOR == 32768,
                    ZOOM_CAP == 0x100000000,
                    FX_ONE == 65536,
            ;
        }
        s128 as i64
    }

    /// Pan distance per key press.
    pub fn translate_step(&self) -> (step: i64)
        requires
            self.wf(),
        ensures
            step == self.spec_translate_step(),
            0 <= step <= STEP_MULTIPLIER_CAP * FX_ONE,
    {
        let zgrid: u64 = (self.zoom as u64) * (FX_ONE as u64);
        let root: u64 = isqrt_u64(zgrid);
        proof {
            lemma_sqrt_floor(zgrid as nat);
            assert((0 + 1) * (0 + 1) == 1) by (nonlinear_arith);
            assert(root >= 1);
        }
        let step128: i128 = div_floor_i128(
            (self.translate_step_multiplier as i128) * (FX_ONE as i128),
            root as i128,
        );
        proof {
            lemma_fundamental_div_mod(
                (self.translate_step_multiplier * FX_ONE) as int,
                root as int,
            );
        }
        step128 as i64
    }

    /// Convert a pixel position to the world point under it: the offset from
    /// the viewport's pixel center is divided by the zoom and added to the
    /// center.
    pub fn screen2world(&self, cursor_pos_px: (i64, i64)) -> (w: WorldVec)
        requires
            self.wf(),
            -PIXEL_CAP <= cursor_pos_px.0 <= PIXEL_CAP,
            -PIXEL_CAP <= cursor_pos_px.1 <= PIXEL_CAP,
        ensures
            w.x == self.spec_screen2world_x(cursor_pos_px.0 as int),
            w.y == self.spec_screen2world_y(cursor_pos_px.1 as int),
            -0x200000000000000 <= w.x <= 0x200000000000000,
            -0x200000000000000 <= w.y <= 0x200000000000000,
    {
        let midx: i64 = (self.resolution.0 / 2) as i64 * FX_ONE;
        let midy: i64 = (self.resolution.1 / 2) as i64 * FX_ONE;
        let qx: i128 = cursor_pos_px.0 as i128 - midx as i128;
        let qy: i128 = cursor_pos_px.1 as i128 - midy as i128;
        let dx: i128 = div_floor_i128(qx * (FX_ONE as i128), self.zoom as i128);
        let dy: i128 = div_floor_i128(qy * (FX_ONE as i128), self.zoom as i128);
        proof {
            lemma_div_floor_magnitude(
                qx as int * FX_ONE as int,
                self.zoom as int,
                dx as int,
                0x10000000000000000,
                ZOOM_FLOOR as int,
                0x4000000000000,
            );
            lemma_div_floor_magnitude(
                qy as int * FX_ONE as int,
                self.zoom as int,
                dy as int,
                0x10000000000000000,
                ZOOM_FLOOR as int,
                0x4000000000000,
            );
        }
        WorldVec {
            x: (self.center.x as i128 + dx) as i64,
            y: (self.center.y as i128 + dy) as i64,
        }
    }

    /// Convert a world point to the pixel position over it: the offset from
    /// the center is multiplied by the zoom and added to the viewport's pixel
    /// center.
    pub fn world2screen(&self, w: WorldVec) -> (p: (i64, i64))
        requires
            self.wf(),
            -0x20000000000000000000 <= (w.x - self.center.x) * self.zoom
                <= 0x20000000000000000000,
            -0x20000000000000000000 <= (w.y - self.center.y) * self.zoom
                <= 0x20000000000000000000,
        ensures
            p.0 == self.spec_world2screen_x(w.x as int),
            p.1 == self.spec_world2screen_y(w.y as int),
    {
        let midx: i64 = (self.resolution.0 / 2) as i64 * FX_ONE;
        let midy: i64 = (self.resolution.1 / 2) as i64 * FX_ONE;
        let px: i128 = div_floor_i128(
            (w.x as i128 - self.center.x as i128) * (self.zoom as i128),
            FX_ONE as i128,
        );
        let py: i128 = div_floor_i128(
            (w.y as i128 - self.center.y as i128) * (self.zoom as i128),
            FX_ONE as i128,
        );
        proof {
            lemma_div_floor_magnitude(
                (w.x as int - self.center.x as int) * self.zoom as int,
                FX_ONE as int,
                px as int,
                0x20000000000000000000,
                FX_ONE as int,
                0x2000000000000000,
            );
            lemma_div_floor_magnitude(
                (w.y as int - self.center.y as int) * self.zoom as int,
                FX_ONE as int,
                py as int,
                0x20000000000000000000,
                FX_ONE as int,
                0x2000000000000000,
            );
        }
        ((midx as i128 + px) as i64, (midy as i128 + py) as i64)
    }

    /// Clamp the center into the pan box, component-wise.
    pub fn enforce_boundaries(&mut self)
        requires
            old(self).wf(),
        ensures
            final(self).wf(),
            final(self).center.x == clamp_spec(
                old(self).center.x as int,
                old(self).translate_min.x as int,
                old(self).translate_max.x as int,
            ),
            final(self).center.y == clamp_spec(
                old(self).center.y as int,
                old(self).translate_min.y as int,
                old(self).translate_max.y as int,
            ),
            final(self).zoom == old(self).zoom,
            final(self).same_config(*old(self)),
    {
        let cx: i64 = clamp_i128(
            self.center.x as i128,
            self.translate_min.x,
            self.translate_max.x,
        );
        let cy: i64 = clamp_i128(
            self.center.y as i128,
            self.translate_min.y,
            self.translate_max.y,
        );
        self.center = WorldVec { x: cx, y: cy };
    }

    /// Change the zoom while keeping the world point under the anchor pixel
    /// fixed (exactly, in grid units, as long as the new center stays
    /// representable; see `lemma_zoom_anchor`).
    pub fn update_zoom(&mut self, new_zoom: i64, screen_pos: (i64, i64))
        requires
            old(self).wf(),
            ZOOM_FLOOR < new_zoom <= ZOOM_CAP,
            -PIXEL_CAP <= screen_pos.0 <= PIXEL_CAP,
            -PIXEL_CAP <= screen_pos.1 <= PIXEL_CAP,
        ensures
            final(self).wf(),
            final(self).zoom == new_zoom,
            final(self).center.x == WindowTransform::spec_anchor_center(
                old(self).center.x as int,
                screen_pos.0 - old(self).spec_mid_x(),
                old(self).zoom as int,
                new_zoom as int,
            ),
            final(self).center.y == WindowTransform::spec_anchor_center(
                old(self).center.y as int,
                screen_pos.1 - old(self).spec_mid_y(),
                old(self).zoom as int,
                new_zoom as int,
            ),
            final(self).same_config(*old(self)),
    {
        let midx: i64 = (self.resolution.0 / 2) as i64 * FX_ONE;
        let midy: i64 = (self.resolution.1 / 2) as i64 * FX_ONE;
        let qx: i128 = screen_pos.0 as i128 - midx as i128;
        let qy: i128 = screen_pos.1 as i128 - midy as i128;
        proof {
            lemma_mul_magnitude(qx as int, FX_ONE as int, 0x1000000000000, FX_ONE as int);
            lemma_mul_magnitude(qy as int, FX_ONE as int, 0x1000000000000, FX_ONE as int);
        }
        let dx_old: i128 = div_floor_i128(qx * (FX_ONE as i128), self.zoom as i128);
        let dx_new: i128 = div_floor_i128(qx * (FX_ONE as i128), new_zoom as i128);
        let dy_old: i128 = div_floor_i128(qy * (FX_ONE as i128), self.zoom as i128);
        let dy_new: i128 = div_floor_i128(qy * (FX_ONE as i128), new_zoom as i128);
        proof {
            lemma_div_floor_magnitude(
                qx as int * FX_ONE as int,
                self.zoom as int,
                dx_old as int,
                0x10000000000000000,
                ZOOM_FLOOR as int,
                0x4000000000000,
            );
            lemma_div_floor_magnitude(
                qx as int * FX_ONE as int,
                new_zoom as int,
                dx_new as int,
                0x10000000000000000,
                ZOOM_FLOOR as int,
                0x4000000000000,
            );
            lemma_div_floor_magnitude(
                qy as int * FX_ONE as int,
                self.zoom as int,
                dy_old as int,
                0x10000000000000000,
                ZOOM_FLOOR as int,
                0x4000000000000,
            );
            lemma_div_floor_magnitude(
                qy as int * FX_ONE as int,
                new_zoom as int,
                dy_new as int,
                0x10000000000000000,
                ZOOM_FLOOR as int,
                0x4000000000000,
            );
        }
        let cx: i64 = clamp_i128(
            self.center.x as i128 + dx_old - dx_new,
            -CENTER_CAP,
            CENTER_CAP,
        );
        let cy: i64 = clamp_i128(
            self.center.y as i128 + dy_old - dy_new,
            -CENTER_CAP,
            CENTER_CAP,
        );
        self.zoom = new_zoom;
        self.center = WorldVec { x: cx, y: cy };
    }

    /// Zoom in by one step, anchored at the given pixel.
    pub fn zoom_in(&mut self, screen_pos: (i64, i64))
        requires
            old(self).wf(),
            -PIXEL_CAP <= screen_pos.0 <= PIXEL_CAP,
            -PIXEL_CAP <= screen_pos.1 <= PIXEL_CAP,
        ensures
            final(self).wf(),
            final(self).zoom == old(self).spec_zoom_in_target(),
            final(self).center.x == WindowTransform::spec_anchor_center(
                old(self).center.x as int,
                screen_pos.0 - old(self).spec_mid_x(),
                old(self).zoom as int,
                old(self).spec_zoom_in_target(),
            ),
            final(self).center.y == WindowTransform::spec_anchor_center(
                old(self).center.y as int,
                screen_pos.1 - old(self).spec_mid_y(),
                old(self).zoom as int,
                old(self).spec_zoom_in_target(),
            ),
            final(self).same_config(*old(self)),
    {
        let factor: u64 = (FX_ONE + self.zoom_step) as u64;
        proof {
            assert((self.zoom as int) * (factor as int) <= 0x100000000 * 0x20000)
                by (nonlinear_arith)
                requires
                    0 <= self.zoom as int <= 0x100000000,
                    0 <= factor as int <= 0x20000,
            ;
            lemma_fx_mul_grow(self.zoom as int, self.zoom_step as int);
        }
        let grown128: u64 = ((self.zoom as u64) * factor) / (FX_ONE as u64);
        let target: i64 = if grown128 as i64 > self.max_zoom {
            self.max_zoom
        } else {
            grown128 as i64
        };
        self.update_zoom(target, screen_pos);
    }

    /// Zoom out by one step, anchored at the given pixel.
    pub fn zoom_out(&mut self, screen_pos: (i64, i64))
        requires
            old(self).wf(),
            -PIXEL_CAP <= screen_pos.0 <= PIXEL_CAP,
            -PIXEL_CAP <= screen_pos.1 <= PIXEL_CAP,
        ensures
            final(self).wf(),
            final(self).zoom == old(self).spec_zoom_out_target(),
            final(self).center.x == WindowTransform::spec_anchor_center(
                old(self).center.x as int,
                screen_pos.0 - old(self).spec_mid_x(),
                old(self).zoom as int,
                old(self).spec_zoom_out_target(),
            ),
            final(self).center.y == WindowTransform::spec_anchor_center(
                old(self).center.y as int,
                screen_pos.1 - old(self).spec_mid_y(),
                old(self).zoom as int,
                old(self).spec_zoom_out_target(),
            ),
            final(self).same_config(*old(self)),
    {
        let factor: u64 = (FX_ONE - self.zoom_step) as u64;
        proof {
            assert((self.zoom as int) * (factor as int) <= 0x100000000 * 0x20000)
                by (nonlinear_arith)
                requires
                    0 <= self.zoom as int <= 0x100000000,
                    0 <= factor as int <= 0x20000,
            ;
            lemma_fx_mul_shrink(self.zoom as int, self.zoom_step as int);
        }
        let shrunk128: u64 = ((self.zoom as u64) * factor) / (FX_ONE as u64);
        let target: i64 = if (shrunk128 as i64) < self.min_zoom {
            self.min_zoom
        } else {
            shrunk128 as i64
        };
        self.update_zoom(target, screen_pos);
    }

    /// Pan one step in the given direction, then clamp the center into the
    /// pan box. After any `translate` the center lies inside
    /// `[translate_min, translate_max]` component-wise.
    pub fn translate(&mut self, dir: TranslateDir)
        requires
            old(self).wf(),
        ensures
            final(self).wf(),
            final(self).zoom == old(self).zoom,
            final(self).same_config(*old(self)),
            final(self).center.x == clamp_spec(
                old(self).center.x as int + (match dir {
                    TranslateDir::Left => -old(self).spec_translate_step(),
                    TranslateDir::Right => old(self).spec_translate_step(),
                    TranslateDir::Up => 0,
                    TranslateDir::Down => 0,
                }),
                old(self).translate_min.x as int,
                old(self).translate_max.x as int,
            ),
            final(self).center.y == clamp_spec(
                old(self).center.y as int + (match dir {
                    TranslateDir::Left => 0,
                    TranslateDir::Right => 0,
                    TranslateDir::Up => old(self).spec_translate_step(),
                    TranslateDir::Down => -old(self).spec_translate_step(),
                }),
                old(self).translate_min.y as int,
                old(self).translate_max.y as int,
            ),
            final(self).translate_min.x <= final(self).center.x <= final(self).translate_max.x,
            final(self).translate_min.y <= final(self).center.y <= final(self).translate_max.y,
    {
        let step: i64 = self.translate_step();
        let cx128: i128 = match dir {
            TranslateDir::Left => self.center.x as i128 - step as i128,
            TranslateDir::Right => self.center.x as i128 + step as i128,
            TranslateDir::Up => self.center.x as i128,
            TranslateDir::Down => self.center.x as i128,
        };
        let cy128: i128 = match dir {
            TranslateDir::Left => self.center.y as i128,
            TranslateDir::Right => self.center.y as i128,
            TranslateDir::Up => self.center.y as i128 + step as i128,
            TranslateDir::Down => self.center.y as i128 - step as i128,
        };
        let cx: i64 = clamp_i128(cx128, self.translate_min.x, self.translate_max.x);
        let cy: i64 = clamp_i128(cy128, self.translate_min.y, self.translate_max.y);
        self.center = WorldVec { x: cx, y: cy };
    }

    /// World y coordinate of the top edge of the viewport.
    pub fn ytop_world(&self) -> (y: i64)
        requires
            self.wf(),
        ensures
            y == self.center.y + (self.resolution.1 as int / 2) * self.spec_scale(),
    {
        let s: i64 = self.scale();
        proof {
            assert(0 <= (self.resolution.1 as int / 2) * (s as int) <= 0x80000000 * 0x20000)
                by (nonlinear_arith)
                requires
                    0 <= (self.resolution.1 as int / 2) <= 0x80000000,
                    0 <= s as int <= 0x20000,
            ;
        }
        let off: i64 = ((self.resolution.1 / 2) as i64) * s;
        self.center.y + off
    }

    /// World y coordinate of the bottom edge of the viewport.
    pub fn ybot_world(&self) -> (y: i64)
        requires
            self.wf(),
        ensures
            y == self.center.y - (self.resolution.1 as int / 2) * self.spec_scale(),
    {
        let s: i64 = self.scale();
        proof {
            assert(0 <= (self.resolution.1 as int / 2) * (s as int) <= 0x80000000 * 0x20000)
                by (nonlinear_arith)
                requires
                    0 <= (self.resolution.1 as int / 2) <= 0x80000000,
                    0 <= s as int <= 0x20000,
            ;
        }
        let off: i64 = ((self.resolution.1 / 2) as i64) * s;
        self.center.y - off
    }

    /// Orthographic camera description: eye just in front of the center,
    /// looking at it, up along +y, visible world height taken from the
    /// viewport height and the current scale.
    pub fn camera(&self, viewport: (u32, u32)) -> (cam: CameraParams)
        requires
            self.wf(),
        ensures
            cam.eye_x == self.center.x,
            cam.eye_y == self.center.y,
            cam.eye_z == FX_ONE,
            cam.target_x == self.center.x,
            cam.target_y == self.center.y,
            cam.target_z == 0,
            cam.up_x == 0,
            cam.up_y == FX_ONE,
            cam.up_z == 0,
            cam.height == viewport.1 as int * self.spec_scale(),
            cam.near == 0,
            cam.far == 10 * FX_ONE,
    {
        let s: i64 = self.scale();
        proof {
            assert((viewport.1 as int) * (s as int) <= 0x100000000 * 0x20000
                && (viewport.1 as int) * (s as int) >= 0) by (nonlinear_arith)
                requires
                    0 <= viewport.1 as int <= 0x100000000,
                    0 <= s as int <= 0x20000,
            ;
        }
        CameraParams {
            eye_x: self.center.x,
            eye_y: self.center.y,
            eye_z: FX_ONE,
            target_x: self.center.x,
            target_y: self.center.y,
            target_z: 0,
            up_x: 0,
            up_y: FX_ONE,
            up_z: 0,
            height: ((viewport.1 as i128) * (s as i128)) as i64,
            near: 0,
            far: 10 * FX_ONE,
        }
    }
}

/// Growing a positive zoom by a non-negative relative step never shrinks it,
/// and a step below one at most doubles it.
proof fn lemma_fx_mul_grow(z: int, s: int)
    requires
        0 < z,
        0 <= s < FX_ONE,
    ensures
        z <= fx_mul(z, FX_ONE + s) < 2 * z,
{
    lemma_fundamental_div_mod(z * (FX_ONE as int + s), FX_ONE as int);
    assert(z <= (z * (FX_ONE as int + s)) / (FX_ONE as int) < 2 * z) by (nonlinear_arith)
        requires
            0 < z,
            0 <= s < FX_ONE,
            z * (FX_ONE as int + s) == FX_ONE as int * ((z * (FX_ONE as int + s)) / (
            FX_ONE as int)) + (z * (FX_ONE as int + s)) % (FX_ONE as int),
            0 <= (z * (FX_ONE as int + s)) % (FX_ONE as int) < FX_ONE as int,
    ;
}

/// Shrinking a positive zoom by a relative step below one keeps it
/// non-negative and never grows it.
proof fn lemma_fx_mul_shrink(z: int, s: int)
    requires
        0 < z,
        0 <= s < FX_ONE,
    ensures
        0 <= fx_mul(z, FX_ONE - s) <= z,
{
    lemma_fundamental_div_mod(z * (FX_ONE as int - s), FX_ONE as int);
    assert(0 <= (z * (FX_ONE as int - s)) / (FX_ONE as int) <= z) by (nonlinear_arith)
        requires
            0 < z,
            0 <= s < FX_ONE,
            z * (FX_ONE as int - s) == FX_ONE as int * ((z * (FX_ONE as int - s)) / (
            FX_ONE as int)) + (z * (FX_ONE as int - s)) % (FX_ONE as int),
            0 <= (z * (FX_ONE as int - s)) % (FX_ONE as int) < FX_ONE as int,
    ;
}

/// Zoom-anchor invariant: a zoom update whose new center did not have to be
/// clamped leaves the world point under the anchor pixel unchanged, exactly.
pub proof fn lemma_zoom_anchor(pre: WindowTransform, post: WindowTransform, px: int, py: int)
    requires
        pre.wf(),
        post.wf(),
        post.same_config(pre),
        post.center.x == WindowTransform::spec_anchor_center(
            pre.center.x as int,
            px - pre.spec_mid_x(),
            pre.zoom as int,
            post.zoom as int,
        ),
        post.center.y == WindowTransform::spec_anchor_center(
            pre.center.y as int,
            py - pre.spec_mid_y(),
            pre.zoom as int,
            post.zoom as int,
        ),
        -(CENTER_CAP as int) <= pre.center.x + fx_div(px - pre.spec_mid_x(), pre.zoom as int)
            - fx_div(px - pre.spec_mid_x(), post.zoom as int) <= CENTER_CAP as int,
        -(CENTER_CAP as int) <= pre.center.y + fx_div(py - pre.spec_mid_y(), pre.zoom as int)
            - fx_div(py - pre.spec_mid_y(), post.zoom as int) <= CENTER_CAP as int,
    ensures
        post.spec_screen2world_x(px) == pre.spec_screen2world_x(px),
        post.spec_screen2world_y(py) == pre.spec_screen2world_y(py),
{
}

/// Screen-to-world-to-screen round trip: converting a pixel position to
/// world coordinates and back lands short of where it started by at most
/// `zoom / FX_ONE + 2` grid units — within one pixel at any legal zoom —
/// and never past it (the loss is the floor rounding of the two
/// conversions).
pub proof fn lemma_world_screen_round_trip_x(t: WindowTransform, px: int)
    requires
        t.wf(),
    ensures
        ({
            let p2 = t.spec_world2screen_x(t.spec_screen2world_x(px));
            0 <= px - p2 <= t.zoom as int / (FX_ONE as int) + 2
        }),
{
    let k = FX_ONE as int;
    let z = t.zoom as int;
    let q = px - t.spec_mid_x();
    let d = (q * k) / z;
    let e = d * z;
    let p2off = e / k;
    lemma_fundamental_div_mod(q * k, z);
    let r1 = (q * k) % z;
    assert(e == q * k - r1) by (nonlinear_arith)
        requires
            q * k == z * d + r1,
            e == d * z,
    ;
    lemma_fundamental_div_mod(e, k);
    let r2 = e % k;
    assert(k * (q - p2off) == r1 + r2);
    lemma_fundamental_div_mod(z, k);
    let d3 = z / k;
    let r3 = z % k;
    assert(0 <= q - p2off);
    assert(q - p2off <= d3 + 2);
    assert(t.spec_world2screen_x(t.spec_screen2world_x(px)) == t.spec_mid_x() + p2off);
}

/// Same round trip on the vertical axis.
pub proof fn lemma_world_screen_round_trip_y(t: WindowTransform, py: int)
    requires
        t.wf(),
    ensures
        ({
            let p2 = t.spec_world2screen_y(t.spec_screen2world_y(py));
            0 <= py - p2 <= t.zoom as int / (FX_ONE as int) + 2
        }),
{
    let k = FX_ONE as int;
    let z = t.zoom as int;
    let q = py - t.spec_mid_y();
    let d = (q * k) / z;
    let e = d * z;
    let p2off = e / k;
    lemma_fundamental_div_mod(q * k, z);
    let r1 = (q * k) % z;
    assert(e == q * k - r1) by (nonlinear_arith)
        requires
            q * k == z * d + r1,
            e == d * z,
    ;
    lemma_fundamental_div_mod(e, k);
    let r2 = e % k;
    assert(k * (q - p2off) == r1 + r2);
    lemma_fundamental_div_mod(z, k);
    let d3 = z / k;
    let r3 = z % k;
    assert(0 <= q - p2off);
    assert(q - p2off <= d3 + 2);
    assert(t.spec_world2screen_y(t.spec_screen2world_y(py)) == t.spec_mid_y() + p2off);
}

} // verus!
