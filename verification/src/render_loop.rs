//! The renderer's per-frame decisions: one authoritative state value owns
//! the camera and the geometry, every input event maps to a camera mutation
//! and possibly a notification for the controller, and a frame counter
//! tracks the frame rate.
use crate::fixed::WorldVec;
use crate::geometry::{div_trunc, TraceGeometry};
use crate::ui::{TranslateDir, WindowTransform, PIXEL_CAP, ZOOM_CAP};
use crate::utils::{int_digits, push_i64, spec_format_bytes};
use crate::fixed::{clamp_spec, FX_ONE};
use vstd::prelude::*;

verus! {

/// Relies on `std::time::Instant` as an opaque monotonic timestamp.
#[verifier::external_type_specification]
#[verifier::external_body]
pub struct ExInstant(std::time::Instant);

/// Relies on `std::time::Instant::now`: an opaque timestamp for later
/// elapsed-time queries.
#[verifier::external_body]
fn instant_now() -> std::time::Instant {
    std::time::Instant::now()
}

/// Relies on `Instant::elapsed` and `Duration::as_secs`: whole seconds
/// since the timestamp was taken (the value depends on the clock).
#[verifier::external_body]
fn elapsed_secs(t: &std::time::Instant) -> u64 {
    t.elapsed().as_secs()
}

/// Counts frames and restarts its window once a second has passed.
pub struct FpsTimer {
    pub timer: std::time::Instant,
    pub frame: u64,
}

impl FpsTimer {
    /// A fresh timer with no frames counted.
    pub fn new() -> (t: FpsTimer)
        ensures
            t.frame == 0,
    {
        FpsTimer { timer: instant_now(), frame: 0 }
    }

    /// Count one frame; once at least a second has elapsed, restart the
    /// window. The count either advances by one (saturating) or restarts at
    /// zero.
    pub fn tick(&mut self)
        ensures
            final(self).frame == 0 || final(self).frame == (if old(self).frame < u64::MAX {
                old(self).frame + 1
            } else {
                u64::MAX as int
            }),
    {
        if self.frame < u64::MAX {
            self.frame = self.frame + 1;
        }
        let elapsed: u64 = elapsed_secs(&self.timer);
        if elapsed >= 1 {
            self.timer = instant_now();
            self.frame = 0;
        }
    }
}

/// A mouse button, as the render loop distinguishes them.
#[derive(Clone, Copy, Debug)]
pub enum MouseButton {
    Left,
    Right,
    Middle,
}

/// A key the render loop reacts to (anything else is `Other`).
#[derive(Clone, Copy, Debug)]
pub enum ViewerKey {
    W,
    A,
    S,
    D,
    Other,
}

/// One input event delivered to the render loop, with pixel positions in
/// grid units.
#[derive(Clone, Copy, Debug)]
pub enum InputEvent {
    MousePress { button: MouseButton, position: (i64, i64) },
    MouseWheel { delta_y: i64, position: (i64, i64) },
    KeyPress { key: ViewerKey },
}

/// A notification for the controller, produced by input handling.
pub enum FrameNotice {
    /// The allocation at this index was clicked; the shell looks up its
    /// details and forwards them.
    AllocationClicked(usize),
    /// The cursor readout for a right click, ready to send.
    CursorReadout(String),
}

/// The render loop's authoritative interaction state: the immutable
/// geometry and the camera it mutates.
pub struct RendererCore {
    pub trace_geom: TraceGeometry,
    pub transform: WindowTransform,
}

/// The cursor readout text for a right click: the memory and timestamp
/// under the cursor.
pub open spec fn cursor_readout_text(memory: int, timestamp: int) -> Seq<char> {
    "Cursor is at :"@ + "\n    "@ + "memory: "@ + spec_format_bytes(memory, 3) + "\n    "@
        + "timestamp: "@ + int_digits(timestamp)
}

impl RendererCore {
    /// Invariant: geometry and camera are both well formed.
    pub open spec fn wf(self) -> bool {
        &&& self.trace_geom.wf()
        &&& self.transform.wf()
    }

    /// Pair the loaded geometry with a fresh camera whose zoom ceiling
    /// follows the trace length (one unit per hundred time steps, floored
    /// just above two, capped at the representable maximum).
    pub fn new(trace_geom: TraceGeometry) -> (core: RendererCore)
        requires
            trace_geom.wf(),
        ensures
            core.wf(),
            core.trace_geom == trace_geom,
    {
        let resolution: (u32, u32) = trace_geom.resolution;
        let mut transform = WindowTransform::new(resolution);
        let scaled: u128 = (trace_geom.max_time as u128) * (FX_ONE as u128) / 100;
        let high: i64 = if scaled <= (2 * FX_ONE) as u128 {
            2 * FX_ONE + 1
        } else if scaled >= ZOOM_CAP as u128 {
            ZOOM_CAP
        } else {
            scaled as i64
        };
        transform.set_zoom_limits(3 * FX_ONE / 4, high);
        RendererCore { trace_geom, transform }
    }

    /// React to one input event: clicks query the geometry and report,
    /// wheel turns zoom about the cursor, keys pan. Exactly one non-blocking
    /// event is handled per call; the camera mutation and the notice are
    /// pinned by the camera's and geometry's own contracts.
    pub fn handle_event(&mut self, event: InputEvent) -> (notice: Option<FrameNotice>)
        requires
            old(self).wf(),
            match event {
                InputEvent::MousePress { button, position } => {
                    &&& -PIXEL_CAP <= position.0 <= PIXEL_CAP
                    &&& -PIXEL_CAP <= position.1 <= PIXEL_CAP
                },
                InputEvent::MouseWheel { delta_y, position } => {
                    &&& -PIXEL_CAP <= position.0 <= PIXEL_CAP
                    &&& -PIXEL_CAP <= position.1 <= PIXEL_CAP
                },
                InputEvent::KeyPress { key } => true,
            },
        ensures
            final(self).wf(),
            final(self).trace_geom == old(self).trace_geom,
            match event {
                InputEvent::MousePress { button, position } => {
                    &&& final(self).transform == old(self).transform
                    &&& match button {
                        MouseButton::Left => {
                            let w = WorldVec {
                                x: old(self).transform.spec_screen2world_x(position.0 as int) as i64,
                                y: old(self).transform.spec_screen2world_y(position.1 as int) as i64,
                            };
                            match notice {
                                Some(FrameNotice::AllocationClicked(i)) => {
                                    &&& 0 <= i < old(self).trace_geom.allocations@.len()
                                    &&& old(self).trace_geom.hit_at(i as int, w.x as int, w.y as int)
                                    &&& forall|j: int|
                                        0 <= j < i ==> !old(self).trace_geom.hit_at(
                                            j,
                                            w.x as int,
                                            w.y as int,
                                        )
                                },
                                None => forall|j: int|
                                    0 <= j < old(self).trace_geom.allocations@.len()
                                        ==> !(old(self).trace_geom.hit_at(
                                        j,
                                        w.x as int,
                                        w.y as int,
                                    )),
                                _ => false,
                            }
                        },
                        MouseButton::Right => {
                            let w = WorldVec {
                                x: old(self).transform.spec_screen2world_x(position.0 as int) as i64,
                                y: old(self).transform.spec_screen2world_y(position.1 as int) as i64,
                            };
                            let mem = clamp_spec(
                                div_trunc(
                                    w.y * old(self).trace_geom.max_size,
                                    old(self).trace_geom.resolution.1 as int * FX_ONE as int,
                                ),
                                i64::MIN as int,
                                i64::MAX as int,
                            );
                            let tsv = clamp_spec(
                                div_trunc(
                                    w.x * old(self).trace_geom.max_time,
                                    old(self).trace_geom.resolution.0 as int * FX_ONE as int,
                                ),
                                i64::MIN as int,
                                i64::MAX as int,
                            );
                            match notice {
                                Some(FrameNotice::CursorReadout(s)) => s@ == cursor_readout_text(
                                    mem,
                                    tsv,
                                ),
                                _ => false,
                            }
                        },
                        MouseButton::Middle => notice is None,
                    }
                },
                InputEvent::MouseWheel { delta_y, position } => {
                    &&& notice is None
                    &&& (delta_y > 0 ==> final(self).transform.zoom == old(self)
                        .transform.spec_zoom_in_target())
                    &&& (delta_y < 0 ==> final(self).transform.zoom == old(self)
                        .transform.spec_zoom_out_target())
                    &&& (delta_y == 0 ==> final(self).transform == old(self).transform)
                    &&& final(self).transform.same_config(old(self).transform)
                },
                InputEvent::KeyPress { key } => {
                    &&& notice is None
                    &&& final(self).transform.same_config(old(self).transform)
                    &&& match key {
                        ViewerKey::Other => final(self).transform == old(self).transform,
                        _ => {
                            &&& final(self).transform.translate_min.x <= final(self)
                                .transform.center.x <= final(self).transform.translate_max.x
                            &&& final(self).transform.translate_min.y <= final(self)
                                .transform.center.y <= final(self).transform.translate_max.y
                            &&& final(self).transform.zoom == old(self).transform.zoom
                        },
                    }
                },
            },
    {
        match event {
            InputEvent::MousePress { button, position } => {
                match button {
                    MouseButton::Left => {
                        let w: WorldVec = self.transform.screen2world(position);
                        let found: Option<usize> = self.trace_geom.find_by_pos(w);
                        match found {
                            Some(i) => Some(FrameNotice::AllocationClicked(i)),
                            None => None,
                        }
                    },
                    MouseButton::Right => {
                        let w: WorldVec = self.transform.screen2world(position);
                        let mem: i64 = self.trace_geom.yworld2memory(w.y);
                        let tsv: i64 = self.trace_geom.xworld2timestamp(w.x);
                        let mut s: String = String::new();
                        s.append("Cursor is at :");
                        s.append("\n    ");
                        s.append("memory: ");
                        let memtext: String = crate::utils::format_bytes_precision(mem, 3);
                        s.append(memtext.as_str());
                        s.append("\n    ");
                        s.append("timestamp: ");
                        push_i64(&mut s, tsv);
                        proof {
                            assert(s@ =~= cursor_readout_text(mem as int, tsv as int));
                        }
                        Some(FrameNotice::CursorReadout(s))
                    },
                    MouseButton::Middle => None,
                }
            },
            InputEvent::MouseWheel { delta_y, position } => {
                if delta_y > 0 {
                    self.transform.zoom_in(position);
                } else if delta_y < 0 {
                    self.transform.zoom_out(position);
                }
                None
            },
            InputEvent::KeyPress { key } => {
                match key {
                    ViewerKey::W => self.transform.translate(TranslateDir::Up),
                    ViewerKey::A => self.transform.translate(TranslateDir::Left),
                    ViewerKey::S => self.transform.translate(TranslateDir::Down),
                    ViewerKey::D => self.transform.translate(TranslateDir::Right),
                    ViewerKey::Other => (),
                }
                None
            },
        }
    }
}

} // verus!
