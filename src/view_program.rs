//! Pan and zoom state of the viewer, in fixed-point coordinates.
use std::sync::Arc;
use vstd::arithmetic::div_mod::lemma_fundamental_div_mod;
use vstd::prelude::*;

use crate::media::{catch_up, share, Animation, ImageData};
use crate::scale::{Scale, MAX_SCALE, SCALE_ONE};

verus! {

/// Coordinates are integers in units of `1 / SUBPIXEL` logical pixel.
pub const SUBPIXEL: i64 = 64;

/// Bound on the magnitude of every coordinate the viewer holds or is given.
pub const COORD_LIMIT: i64 = 0x100_0000_0000;

/// A point or a vector in coordinate units.
#[derive(Clone, Copy, Debug, PartialEq, Eq, Structural)]
pub struct Point2 {
    pub x: i64,
    pub y: i64,
}

pub open spec fn clamp(v: int, lo: int, hi: int) -> int {
    if v < lo {
        lo
    } else if v > hi {
        hi
    } else {
        v
    }
}

/// Division rounding toward zero, for a positive divisor.
pub open spec fn div_trunc(a: int, b: int) -> int {
    if a >= 0 {
        a / b
    } else {
        -((-a) / b)
    }
}

pub open spec fn abs(a: int) -> int {
    if a >= 0 {
        a
    } else {
        -a
    }
}

/// Offset after panning by `delta` at scale `s`: `offset + 2 * delta / s`, then
/// clamped to `[-limit, limit]`.
pub open spec fn panned(offset: int, delta: int, s: int, limit: int) -> int {
    clamp(offset + div_trunc(2 * delta * SCALE_ONE, s), -limit, limit)
}

/// Offset correction of a zoom from `prev` to `new` that keeps the image point under
/// the cursor in place: `v * ndc * (1 / new - 1 / prev)`, where `v * ndc` is
/// `2 * cursor - v` (for y, the caller passes the flipped difference).
pub open spec fn zoom_shift(twice_from_center: int, prev: int, new: int) -> int {
    div_trunc(twice_from_center * SCALE_ONE * (prev - new), prev * new)
}

/// `s` times the image coordinate under a cursor that is `twice_from_center / 2` from
/// the viewport center, at scale `s` and offset `offset`.
pub open spec fn point_under_cursor_scaled(twice_from_center: int, s: int, offset: int) -> int {
    twice_from_center * SCALE_ONE - offset * s
}

/// `a / b` rounded toward zero, for a positive `b`.
fn div_toward_zero(a: i128, b: i128) -> (r: i128)
    requires
        b > 0,
        a > i128::MIN,
    ensures
        r == div_trunc(a as int, b as int),
{
    if a >= 0 {
        a / b
    } else {
        let q = (-a) / b;
        -q
    }
}

fn clamp_i128(v: i128, limit: i64) -> (r: i64)
    requires
        limit >= 0,
    ensures
        r == clamp(v as int, -limit, limit as int),
{
    if v < -(limit as i128) {
        -limit
    } else if v > limit as i128 {
        limit
    } else {
        v as i64
    }
}

/// Pointer state of the viewer: idle, or dragging from the last pointer position.
#[derive(Clone, Copy, Debug, PartialEq, Eq, Structural)]
pub enum ViewProgramState {
    Idle,
    Panning(Point2),
}

/// Keys that act on the viewer while the control modifier is held.
#[derive(Clone, Copy, Debug, PartialEq, Eq, Structural)]
pub enum ViewKey {
    Equal,
    Minus,
    Digit(u8),
    Other,
}

/// Input the viewer reacts to. Positions are in coordinate units relative to the
/// viewport's top-left corner; `None` where the pointer is not over the viewport.
#[derive(Clone, Copy, Debug, PartialEq, Eq, Structural)]
pub enum ViewInput {
    KeyPressed { control: bool, key: ViewKey },
    WheelScrolled { upward: bool, at: Option<Point2> },
    PrimaryPressed { over: Option<Point2> },
    PrimaryReleased,
    CursorMoved { position: Point2 },
}

/// What the viewer asks of its owner in answer to an input.
#[derive(Clone, Copy, Debug, PartialEq, Eq, Structural)]
pub enum ViewCommand {
    /// Zoom in one step, keeping the point at this position in place.
    ScaleUp(Point2),
    /// Zoom out one step, keeping the point at this position in place.
    ScaleDown(Point2),
    /// Fit the image to the viewport.
    Fit,
    /// Set this absolute scale, in units of `SCALE_ONE`.
    SetScale(u64),
    /// Pan by this delta, y pointing up.
    Pan(Point2),
    /// The input is consumed; nothing else to do.
    Capture,
}

/// The command for `input` in pointer state `state`, over a viewport of
/// `width` x `height`, with the pointer state that follows.
pub open spec fn spec_input(
    state: ViewProgramState,
    input: ViewInput,
    width: i64,
    height: i64,
) -> (ViewProgramState, Option<ViewCommand>) {
    let center = Point2 { x: (width / 2) as i64, y: (height / 2) as i64 };
    match input {
        ViewInput::KeyPressed { control, key } => if !control {
            (state, None)
        } else {
            match key {
                ViewKey::Equal => (state, Some(ViewCommand::ScaleUp(center))),
                ViewKey::Minus => (state, Some(ViewCommand::ScaleDown(center))),
                ViewKey::Digit(d) => if d == 0 {
                    (state, Some(ViewCommand::Fit))
                } else if d <= 9 {
                    (state, Some(ViewCommand::SetScale((d * SCALE_ONE) as u64)))
                } else {
                    (state, None)
                },
                ViewKey::Other => (state, None),
            }
        },
        ViewInput::WheelScrolled { upward, at } => match at {
            Some(p) => if upward {
                (state, Some(ViewCommand::ScaleUp(p)))
            } else {
                (state, Some(ViewCommand::ScaleDown(p)))
            },
            None => (state, None),
        },
        ViewInput::PrimaryPressed { over } => match (state, over) {
            (ViewProgramState::Idle, Some(p)) => (
                ViewProgramState::Panning(p),
                Some(ViewCommand::Capture),
            ),
            _ => (state, None),
        },
        ViewInput::PrimaryReleased => match state {
            ViewProgramState::Panning(_) => (ViewProgramState::Idle, Some(ViewCommand::Capture)),
            ViewProgramState::Idle => (state, None),
        },
        ViewInput::CursorMoved { position } => match state {
            ViewProgramState::Panning(prev) => (
                ViewProgramState::Panning(position),
                Some(
                    ViewCommand::Pan(
                        Point2 {
                            x: (position.x - prev.x) as i64,
                            y: (prev.y - position.y) as i64,
                        },
                    ),
                ),
            ),
            ViewProgramState::Idle => (state, None),
        },
    }
}

impl ViewProgramState {
    /// Reacts to one input over a `width` x `height` viewport: control-key zoom
    /// shortcuts anchored at the viewport center, wheel zoom anchored at the pointer,
    /// and press-drag-release panning.
    pub fn handle(&mut self, input: ViewInput, width: i64, height: i64) -> (r: Option<
        ViewCommand,
    >)
        requires
            0 <= width <= COORD_LIMIT,
            0 <= height <= COORD_LIMIT,
            *old(self) matches ViewProgramState::Panning(p) ==> -COORD_LIMIT <= p.x <= COORD_LIMIT
                && -COORD_LIMIT <= p.y <= COORD_LIMIT,
            input matches ViewInput::CursorMoved { position } ==> -COORD_LIMIT <= position.x
                <= COORD_LIMIT && -COORD_LIMIT <= position.y <= COORD_LIMIT,
            input matches ViewInput::PrimaryPressed { over: Some(p) } ==> -COORD_LIMIT <= p.x
                <= COORD_LIMIT && -COORD_LIMIT <= p.y <= COORD_LIMIT,
        ensures
            (*final(self), r) == spec_input(*old(self), input, width, height),
    {
        let center = Point2 { x: width / 2, y: height / 2 };
        match input {
            ViewInput::KeyPressed { control, key } => {
                if !control {
                    return None;
                }
                match key {
                    ViewKey::Equal => Some(ViewCommand::ScaleUp(center)),
                    ViewKey::Minus => Some(ViewCommand::ScaleDown(center)),
                    ViewKey::Digit(d) => {
                        if d == 0 {
                            Some(ViewCommand::Fit)
                        } else if d <= 9 {
                            Some(ViewCommand::SetScale(d as u64 * SCALE_ONE))
                        } else {
                            None
                        }
                    },
                    ViewKey::Other => None,
                }
            },
            ViewInput::WheelScrolled { upward, at } => match at {
                Some(p) => {
                    if upward {
                        Some(ViewCommand::ScaleUp(p))
                    } else {
                        Some(ViewCommand::ScaleDown(p))
                    }
                },
                None => None,
            },
            ViewInput::PrimaryPressed { over } => match (*self, over) {
                (ViewProgramState::Idle, Some(p)) => {
                    *self = ViewProgramState::Panning(p);
                    Some(ViewCommand::Capture)
                },
                _ => None,
            },
            ViewInput::PrimaryReleased => match *self {
                ViewProgramState::Panning(_) => {
                    *self = ViewProgramState::Idle;
                    Some(ViewCommand::Capture)
                },
                ViewProgramState::Idle => None,
            },
            ViewInput::CursorMoved { position } => match *self {
                ViewProgramState::Panning(prev) => {
                    *self = ViewProgramState::Panning(position);
                    Some(
                        ViewCommand::Pan(
                            Point2 { x: position.x - prev.x, y: prev.y - position.y },
                        ),
                    )
                },
                ViewProgramState::Idle => None,
            },
        }
    }
}

/// Viewer state: pan offset, image size and viewport size in coordinate units, the
/// zoom state, the displayed image and the animation it comes from, if any.
#[derive(Clone)]
pub struct ViewProgram {
    offset: Point2,
    image_size: Point2,
    scale: Scale,
    bounds: Point2,
    image: Option<Arc<ImageData>>,
    animation: Option<Animation>,
    pub lanczos_enabled: bool,
}

pub open spec fn within(v: int, limit: int) -> bool {
    -limit <= v <= limit
}

impl ViewProgram {
    pub closed spec fn offset_spec(&self) -> Point2 {
        self.offset
    }

    pub closed spec fn image_size_spec(&self) -> Point2 {
        self.image_size
    }

    pub closed spec fn bounds_spec(&self) -> Point2 {
        self.bounds
    }

    pub closed spec fn scale_spec(&self) -> Scale {
        self.scale
    }

    pub closed spec fn image_spec(&self) -> Option<Arc<ImageData>> {
        self.image
    }

    pub closed spec fn animation_spec(&self) -> Option<Animation> {
        self.animation
    }

    pub closed spec fn lanczos_spec(&self) -> bool {
        self.lanczos_enabled
    }

    /// Sizes are non-negative and bounded, and the zoom state and the animation are
    /// well formed.
    pub open spec fn wf(&self) -> bool {
        &&& 0 <= self.image_size_spec().x <= COORD_LIMIT
        &&& 0 <= self.image_size_spec().y <= COORD_LIMIT
        &&& 0 <= self.bounds_spec().x <= COORD_LIMIT
        &&& 0 <= self.bounds_spec().y <= COORD_LIMIT
        &&& self.scale_spec().wf()
        &&& self.animation_spec() matches Some(a) ==> a.wf()
    }

    /// No image, no offset, a factor of 1.
    pub fn new() -> (r: ViewProgram)
        ensures
            r.wf(),
            r.offset_spec() == (Point2 { x: 0, y: 0 }),
            r.image_size_spec() == (Point2 { x: 0, y: 0 }),
            r.bounds_spec() == (Point2 { x: 0, y: 0 }),
            r.scale_spec().value_spec() == SCALE_ONE,
            r.image_spec() is None,
            r.animation_spec() is None,
            !r.lanczos_spec(),
    {
        ViewProgram {
            offset: Point2 { x: 0, y: 0 },
            image_size: Point2 { x: 0, y: 0 },
            scale: Scale::new(),
            bounds: Point2 { x: 0, y: 0 },
            image: None,
            animation: None,
            lanczos_enabled: false,
        }
    }

    fn clamp_offset(&mut self)
        requires
            0 <= old(self).image_size.x <= COORD_LIMIT,
            0 <= old(self).image_size.y <= COORD_LIMIT,
        ensures
            final(self).offset.x == clamp(
                old(self).offset.x as int,
                -old(self).image_size.x,
                old(self).image_size.x as int,
            ),
            final(self).offset.y == clamp(
                old(self).offset.y as int,
                -old(self).image_size.y,
                old(self).image_size.y as int,
            ),
            final(self).image_size == old(self).image_size,
            final(self).bounds == old(self).bounds,
            final(self).scale == old(self).scale,
            final(self).image == old(self).image,
            final(self).animation == old(self).animation,
            final(self).lanczos_enabled == old(self).lanczos_enabled,
    {
        self.offset = Point2 {
            x: clamp_i128(self.offset.x as i128, self.image_size.x),
            y: clamp_i128(self.offset.y as i128, self.image_size.y),
        };
    }

    /// Sets the viewport size and keeps the offset within the image.
    pub fn set_bounds(&mut self, width: i64, height: i64)
        requires
            old(self).wf(),
            0 <= width <= COORD_LIMIT,
            0 <= height <= COORD_LIMIT,
        ensures
            final(self).wf(),
            final(self).bounds_spec() == (Point2 { x: width, y: height }),
            final(self).offset_spec().x == clamp(
                old(self).offset_spec().x as int,
                -old(self).image_size_spec().x,
                old(self).image_size_spec().x as int,
            ),
            final(self).offset_spec().y == clamp(
                old(self).offset_spec().y as int,
                -old(self).image_size_spec().y,
                old(self).image_size_spec().y as int,
            ),
            final(self).image_size_spec() == old(self).image_size_spec(),
            final(self).scale_spec() == old(self).scale_spec(),
            final(self).image_spec() == old(self).image_spec(),
            final(self).animation_spec() == old(self).animation_spec(),
    {
        self.bounds = Point2 { x: width, y: height };
        self.clamp_offset();
    }

    /// Center of the viewport.
    pub fn viewport_center(&self) -> (r: Point2)
        requires
            self.wf(),
        ensures
            r == (Point2 {
                x: (self.bounds_spec().x / 2) as i64,
                y: (self.bounds_spec().y / 2) as i64,
            }),
    {
        Point2 { x: self.bounds.x / 2, y: self.bounds.y / 2 }
    }

    /// Fits the image to the viewport: the custom scale becomes
    /// `min(viewport / image)` per axis. The zoom is anchored at the exact viewport
    /// center, where the anchoring correction is zero, so the offset is only kept
    /// within the image size.
    pub fn fit(&mut self)
        requires
            old(self).wf(),
            old(self).image_size_spec().x > 0,
            old(self).image_size_spec().y > 0,
            old(self).image_size_spec().x <= old(self).bounds_spec().x * SCALE_ONE <= MAX_SCALE,
            old(self).image_size_spec().y <= old(self).bounds_spec().y * SCALE_ONE <= MAX_SCALE,
        ensures
            final(self).wf(),
            final(self).offset_spec().x == clamp(
                old(self).offset_spec().x as int,
                -old(self).image_size_spec().x,
                old(self).image_size_spec().x as int,
            ),
            final(self).offset_spec().y == clamp(
                old(self).offset_spec().y as int,
                -old(self).image_size_spec().y,
                old(self).image_size_spec().y as int,
            ),
            final(self).scale_spec().custom_spec() == Some(
                crate::scale::fit_scale(
                    old(self).image_size_spec().x as int,
                    old(self).image_size_spec().y as int,
                    old(self).bounds_spec().x as int,
                    old(self).bounds_spec().y as int,
                ) as u64,
            ),
            final(self).scale_spec().index_spec() == old(self).scale_spec().index_spec(),
            final(self).image_size_spec() == old(self).image_size_spec(),
            final(self).bounds_spec() == old(self).bounds_spec(),
            final(self).image_spec() == old(self).image_spec(),
            final(self).animation_spec() == old(self).animation_spec(),
            final(self).lanczos_spec() == old(self).lanczos_spec(),
    {
        self.scale.fit(
            self.image_size.x as u64,
            self.image_size.y as u64,
            self.bounds.x as u64,
            self.bounds.y as u64,
        );
        self.clamp_offset();
    }

    /// Pans by `delta` (y up): the offset moves by `2 * delta / scale` and is then
    /// clamped to the image size on each axis.
    pub fn pan(&mut self, delta: Point2)
        requires
            old(self).wf(),
        ensures
            final(self).wf(),
            final(self).offset_spec().x == panned(
                old(self).offset_spec().x as int,
                delta.x as int,
                old(self).scale_spec().value_spec() as int,
                old(self).image_size_spec().x as int,
            ),
            final(self).offset_spec().y == panned(
                old(self).offset_spec().y as int,
                delta.y as int,
                old(self).scale_spec().value_spec() as int,
                old(self).image_size_spec().y as int,
            ),
            final(self).scale_spec() == old(self).scale_spec(),
            final(self).image_size_spec() == old(self).image_size_spec(),
            final(self).bounds_spec() == old(self).bounds_spec(),
            final(self).image_spec() == old(self).image_spec(),
            final(self).animation_spec() == old(self).animation_spec(),
    {
        let s = self.scale.value();
        proof {
            self.scale.lemma_value_bounds();
        }
        let dx = div_toward_zero(2 * (delta.x as i128) * (SCALE_ONE as i128), s as i128);
        let dy = div_toward_zero(2 * (delta.y as i128) * (SCALE_ONE as i128), s as i128);
        proof {
            lemma_div_trunc_bound(2 * delta.x * SCALE_ONE, s as int);
            lemma_div_trunc_bound(2 * delta.y * SCALE_ONE, s as int);
        }
        self.offset = Point2 {
            x: clamp_i128(self.offset.x as i128 + dx, self.image_size.x),
            y: clamp_i128(self.offset.y as i128 + dy, self.image_size.y),
        };
    }
}

impl ViewProgram {
    /// Moves the offset so that the image point under `cursor` stays in place after
    /// the zoom went from `prev` to the current scale, then clamps it.
    fn scale_offset(&mut self, cursor: Point2, prev: u64)
        requires
            old(self).wf(),
            0 < prev <= MAX_SCALE,
            in_limit_spec(cursor),
        ensures
            final(self).wf(),
            final(self).offset_spec().x == clamp(
                old(self).offset_spec().x + zoom_shift(
                    2 * cursor.x - old(self).bounds_spec().x,
                    prev as int,
                    old(self).scale_spec().value_spec() as int,
                ),
                -old(self).image_size_spec().x,
                old(self).image_size_spec().x as int,
            ),
            final(self).offset_spec().y == clamp(
                old(self).offset_spec().y + zoom_shift(
                    old(self).bounds_spec().y - 2 * cursor.y,
                    prev as int,
                    old(self).scale_spec().value_spec() as int,
                ),
                -old(self).image_size_spec().y,
                old(self).image_size_spec().y as int,
            ),
            final(self).scale_spec() == old(self).scale_spec(),
            final(self).image_size_spec() == old(self).image_size_spec(),
            final(self).bounds_spec() == old(self).bounds_spec(),
            final(self).image_spec() == old(self).image_spec(),
            final(self).animation_spec() == old(self).animation_spec(),
            final(self).lanczos_spec() == old(self).lanczos_spec(),
    {
        let new = self.scale.value();
        proof {
            self.scale.lemma_value_bounds();
        }
        let sx = shift_for(2 * (cursor.x as i128) - self.bounds.x as i128, prev, new);
        let sy = shift_for(self.bounds.y as i128 - 2 * (cursor.y as i128), prev, new);
        self.offset = Point2 {
            x: clamp_i128(self.offset.x as i128 + sx, self.image_size.x),
            y: clamp_i128(self.offset.y as i128 + sy, self.image_size.y),
        };
    }

    /// Zooms in one step, keeping the image point under `cursor` in place.
    pub fn scale_up(&mut self, cursor: Point2)
        requires
            old(self).wf(),
            in_limit_spec(cursor),
        ensures
            final(self).wf(),
            final(self).zoomed_from(*old(self), cursor),
            final(self).scale_spec().index_spec() == crate::scale::up_index(
                old(self).scale_spec().index_spec(),
                old(self).scale_spec().custom_spec(),
            ),
            final(self).scale_spec().custom_spec() is None,
    {
        let prev = self.scale.up();
        self.scale_offset(cursor, prev);
    }

    /// Zooms out one step, keeping the image point under `cursor` in place.
    pub fn scale_down(&mut self, cursor: Point2)
        requires
            old(self).wf(),
            in_limit_spec(cursor),
        ensures
            final(self).wf(),
            final(self).zoomed_from(*old(self), cursor),
            final(self).scale_spec().index_spec() == crate::scale::down_index(
                old(self).scale_spec().index_spec(),
                old(self).scale_spec().custom_spec(),
            ),
            final(self).scale_spec().custom_spec() is None,
    {
        let prev = self.scale.down();
        self.scale_offset(cursor, prev);
    }

    /// Sets an absolute scale, keeping the image point under `cursor` in place.
    pub fn set_scale(&mut self, scale: u64, cursor: Point2)
        requires
            old(self).wf(),
            0 < scale <= MAX_SCALE,
            in_limit_spec(cursor),
        ensures
            final(self).wf(),
            final(self).zoomed_from(*old(self), cursor),
            final(self).scale_spec().value_spec() == scale,
    {
        let prev = self.scale.value();
        proof {
            self.scale.lemma_value_bounds();
        }
        self.scale.custom(scale);
        self.scale_offset(cursor, prev);
    }

    /// This state follows `before` by a zoom anchored at `cursor`: the offset moved by
    /// the anchoring correction and was clamped; all else but the zoom is kept.
    pub open spec fn zoomed_from(&self, before: ViewProgram, cursor: Point2) -> bool {
        let prev = before.scale_spec().value_spec() as int;
        let new = self.scale_spec().value_spec() as int;
        &&& self.offset_spec().x == clamp(
            before.offset_spec().x + zoom_shift(2 * cursor.x - before.bounds_spec().x, prev, new),
            -before.image_size_spec().x,
            before.image_size_spec().x as int,
        )
        &&& self.offset_spec().y == clamp(
            before.offset_spec().y + zoom_shift(before.bounds_spec().y - 2 * cursor.y, prev, new),
            -before.image_size_spec().y,
            before.image_size_spec().y as int,
        )
        &&& self.image_size_spec() == before.image_size_spec()
        &&& self.bounds_spec() == before.bounds_spec()
        &&& self.image_spec() == before.image_spec()
        &&& self.animation_spec() == before.animation_spec()
        &&& self.lanczos_spec() == before.lanczos_spec()
    }
}

impl ViewProgram {
    /// Shows a still image; any animation stops. The offset is kept.
    pub fn set_image(&mut self, data: ImageData)
        requires
            old(self).wf(),
        ensures
            final(self).wf(),
            final(self).image_size_spec() == (Point2 {
                x: (data.width * SUBPIXEL) as i64,
                y: (data.height * SUBPIXEL) as i64,
            }),
            final(self).image_spec() matches Some(a) && *a == data,
            final(self).animation_spec() is None,
            final(self).offset_spec() == old(self).offset_spec(),
            final(self).scale_spec() == old(self).scale_spec(),
            final(self).bounds_spec() == old(self).bounds_spec(),
    {
        self.image_size = Point2 {
            x: data.width as i64 * SUBPIXEL,
            y: data.height as i64 * SUBPIXEL,
        };
        self.image = Some(Arc::new(data));
        self.animation = None;
    }

    /// Shows an animation, starting from its current frame.
    pub fn set_animation(&mut self, anim: Animation)
        requires
            old(self).wf(),
            anim.wf(),
        ensures
            final(self).wf(),
            final(self).animation_spec() == Some(anim),
            final(self).image_spec() matches Some(a) && *a
                == *anim.frames_view()[anim.current_spec()].data,
            final(self).image_size_spec() == (Point2 {
                x: (anim.frames_view()[anim.current_spec()].data.width * SUBPIXEL) as i64,
                y: (anim.frames_view()[anim.current_spec()].data.height * SUBPIXEL) as i64,
            }),
            final(self).offset_spec() == old(self).offset_spec(),
            final(self).scale_spec() == old(self).scale_spec(),
            final(self).bounds_spec() == old(self).bounds_spec(),
    {
        let first = share(anim.current_image());
        self.image_size = Point2 {
            x: first.width as i64 * SUBPIXEL,
            y: first.height as i64 * SUBPIXEL,
        };
        self.image = Some(first);
        self.animation = Some(anim);
    }

    /// Advances the animation, if any, to time `now` and shows the frame it reached.
    pub fn tick_animation(&mut self, now: u64)
        requires
            old(self).wf(),
            now < u64::MAX,
        ensures
            final(self).wf(),
            final(self).offset_spec() == old(self).offset_spec(),
            final(self).scale_spec() == old(self).scale_spec(),
            final(self).bounds_spec() == old(self).bounds_spec(),
            final(self).image_size_spec() == old(self).image_size_spec(),
            match old(self).animation_spec() {
                None => final(self).animation_spec() is None && final(self).image_spec()
                    == old(self).image_spec(),
                Some(a) => final(self).animation_spec() matches Some(b) && {
                    &&& b.frames_view() == a.frames_view()
                    &&& if now < a.deadline_spec() {
                        b == a && final(self).image_spec() == old(self).image_spec()
                    } else {
                        (b.current_spec(), b.deadline_spec()) == catch_up(
                            a.delays(),
                            a.current_spec(),
                            a.deadline_spec(),
                            now as int,
                        ) && (final(self).image_spec() matches Some(img) && *img
                            == *b.frames_view()[b.current_spec()].data)
                    }
                },
            },
    {
        match self.animation.as_mut() {
            Some(anim) => {
                if let Some(frame) = anim.tick(now) {
                    self.image = Some(frame);
                }
            },
            None => {},
        }
    }

    /// Time left until the animation's next frame, if an animation is shown.
    pub fn time_until_next_frame(&self, now: u64) -> (r: Option<u64>)
        ensures
            match self.animation_spec() {
                None => r is None,
                Some(a) => r == Some(
                    (if now < a.deadline_spec() {
                        a.deadline_spec() - now
                    } else {
                        0
                    }) as u64,
                ),
            },
    {
        match &self.animation {
            Some(a) => Some(a.time_until_next_frame(now)),
            None => None,
        }
    }

    /// The current scale, in units of `SCALE_ONE`.
    pub fn scale(&self) -> (r: u64)
        requires
            self.wf(),
        ensures
            r == self.scale_spec().value_spec(),
    {
        self.scale.value()
    }

    /// Size of the shown image in pixels; `None` before any image was set.
    pub fn image_size(&self) -> (r: Option<(u32, u32)>)
        requires
            self.wf(),
        ensures
            self.image_size_spec() == (Point2 { x: 0, y: 0 }) ==> r is None,
            self.image_size_spec() != (Point2 { x: 0, y: 0 }) ==> r == Some(
                (
                    (self.image_size_spec().x / SUBPIXEL) as u32,
                    (self.image_size_spec().y / SUBPIXEL) as u32,
                ),
            ),
    {
        if self.image_size.x == 0 && self.image_size.y == 0 {
            return None;
        }
        Some(((self.image_size.x / SUBPIXEL) as u32, (self.image_size.y / SUBPIXEL) as u32))
    }

    /// Current frame index and frame count of the shown animation.
    pub fn animation_info(&self) -> (r: Option<(usize, usize)>)
        ensures
            match self.animation_spec() {
                None => r is None,
                Some(a) => r == Some(
                    (a.current_spec() as usize, a.frames_view().len() as usize),
                ),
            },
    {
        match &self.animation {
            Some(a) => Some((a.current_index(), a.frame_count())),
            None => None,
        }
    }

    pub fn lanczos_enabled(&self) -> (r: bool)
        ensures
            r == self.lanczos_spec(),
    {
        self.lanczos_enabled
    }

    /// Pan offset, in coordinate units.
    pub fn offset(&self) -> (r: Point2)
        ensures
            r == self.offset_spec(),
    {
        self.offset
    }

    /// Viewport size, in coordinate units.
    pub fn bounds(&self) -> (r: Point2)
        ensures
            r == self.bounds_spec(),
    {
        self.bounds
    }

    /// The shown image, if any.
    pub fn image(&self) -> (r: &Option<Arc<ImageData>>)
        ensures
            *r == self.image_spec(),
    {
        &self.image
    }
}

pub open spec fn in_limit_spec(p: Point2) -> bool {
    -COORD_LIMIT <= p.x <= COORD_LIMIT && -COORD_LIMIT <= p.y <= COORD_LIMIT
}

/// The anchoring correction along one axis, `zoom_shift(d, prev, new)`.
fn shift_for(d: i128, prev: u64, new: u64) -> (r: i128)
    requires
        -3 * COORD_LIMIT <= d <= 3 * COORD_LIMIT,
        0 < prev <= MAX_SCALE,
        0 < new <= MAX_SCALE,
    ensures
        r == zoom_shift(d as int, prev as int, new as int),
        abs(r as int) <= 0x1000_0000_0000_0000_0000_0000_0000_0000,
{
    let diff: i128 = prev as i128 - new as i128;
    proof {
        lemma_product_bound(d as int, SCALE_ONE as int, 3 * COORD_LIMIT, SCALE_ONE as int);
        lemma_product_bound(
            d * SCALE_ONE,
            diff as int,
            3 * COORD_LIMIT * SCALE_ONE,
            MAX_SCALE as int,
        );
        assert(3 * COORD_LIMIT * SCALE_ONE * MAX_SCALE <= 0x1000_0000_0000_0000_0000_0000_0000_0000)
            by (nonlinear_arith);
    }
    assert(prev as int * new as int <= MAX_SCALE * MAX_SCALE) by (nonlinear_arith)
        requires
            0 < prev <= MAX_SCALE,
            0 < new <= MAX_SCALE,
    ;
    assert(prev as int * new as int >= 1) by (nonlinear_arith)
        requires
            0 < prev,
            0 < new,
    ;
    let num: i128 = d * (SCALE_ONE as i128) * diff;
    let den: i128 = prev as i128 * new as i128;
    proof {
        lemma_div_trunc_bound(num as int, den as int);
    }
    div_toward_zero(num, den)
}

proof fn lemma_product_bound(a: int, b: int, x: int, y: int)
    requires
        abs(a) <= x,
        abs(b) <= y,
    ensures
        abs(a * b) <= x * y,
{
    assert(abs(a * b) == abs(a) * abs(b)) by (nonlinear_arith);
    assert(abs(a) * abs(b) <= x * y) by (nonlinear_arith)
        requires
            0 <= abs(a) <= x,
            0 <= abs(b) <= y,
    ;
}

proof fn lemma_div_trunc_bound(a: int, b: int)
    requires
        b >= 1,
    ensures
        abs(div_trunc(a, b)) <= abs(a),
{
    if a >= 0 {
        assert(a / b <= a) by (nonlinear_arith)
            requires
                a >= 0,
                b >= 1,
        ;
        assert(a / b >= 0) by (nonlinear_arith)
            requires
                a >= 0,
                b >= 1,
        ;
    } else {
        assert((-a) / b <= -a) by (nonlinear_arith)
            requires
                -a >= 0,
                b >= 1,
        ;
        assert((-a) / b >= 0) by (nonlinear_arith)
            requires
                -a >= 0,
                b >= 1,
        ;
    }
}


/// Dividing toward zero leaves a remainder smaller than the divisor.
proof fn lemma_div_trunc_remainder(a: int, b: int)
    requires
        b >= 1,
    ensures
        abs(a - b * div_trunc(a, b)) < b,
{
    if a >= 0 {
        lemma_fundamental_div_mod(a, b);
    } else {
        lemma_fundamental_div_mod(-a, b);
        assert(a - b * div_trunc(a, b) == -((-a) % b)) by (nonlinear_arith)
            requires
                -a == b * ((-a) / b) + (-a) % b,
                div_trunc(a, b) == -((-a) / b),
        ;
    }
}

/// A zoom anchored at the cursor keeps the image point under the cursor in place:
/// with the corrected offset, the image coordinate under the cursor at the new
/// scale differs from the one at the previous scale by less than one coordinate
/// unit. (`point_under_cursor_scaled` is that coordinate times the scale, so the
/// difference is compared after multiplying by both scales.)
pub proof fn lemma_zoom_keeps_cursor_point(
    twice_from_center: int,
    offset: int,
    prev: int,
    new: int,
)
    requires
        prev > 0,
        new > 0,
    ensures
        abs(
            new * point_under_cursor_scaled(twice_from_center, prev, offset) - prev
                * point_under_cursor_scaled(
                twice_from_center,
                new,
                offset + zoom_shift(twice_from_center, prev, new),
            ),
        ) < prev * new,
{
    let a = twice_from_center * SCALE_ONE * (prev - new);
    let b = prev * new;
    let q = zoom_shift(twice_from_center, prev, new);
    assert(b >= 1) by (nonlinear_arith)
        requires
            prev > 0,
            new > 0,
            b == prev * new,
    ;
    lemma_div_trunc_remainder(a, b);
    assert(new * point_under_cursor_scaled(twice_from_center, prev, offset) - prev
        * point_under_cursor_scaled(twice_from_center, new, offset + q) == -(a - b * q))
        by (nonlinear_arith)
        requires
            a == twice_from_center * SCALE_ONE * (prev - new),
            b == prev * new,
            point_under_cursor_scaled(twice_from_center, prev, offset) == twice_from_center
                * SCALE_ONE - offset * prev,
            point_under_cursor_scaled(twice_from_center, new, offset + q) == twice_from_center
                * SCALE_ONE - (offset + q) * new,
    ;
}

/// Offset after a sequence of pans at scale `s`, each clamped to `[-limit, limit]`.
pub open spec fn panned_all(offset: int, deltas: Seq<int>, s: int, limit: int) -> int
    decreases deltas.len(),
{
    if deltas.len() == 0 {
        offset
    } else {
        panned(panned_all(offset, deltas.drop_last(), s, limit), deltas.last(), s, limit)
    }
}

/// After any non-empty sequence of pans the offset lies within `[-limit, limit]`,
/// whatever the deltas; from an offset already within it, after any sequence.
pub proof fn lemma_pan_stays_clamped(offset: int, deltas: Seq<int>, s: int, limit: int)
    requires
        limit >= 0,
        s > 0,
        deltas.len() > 0 || within(offset, limit),
    ensures
        within(panned_all(offset, deltas, s, limit), limit),
    decreases deltas.len(),
{
}

/// Along one axis, a tile whose center lies `d` units from the image center
/// (doubled) and whose half-extent is `w` units lies wholly outside the clip range
/// `[-1, 1]` at scale `s`, offset `o` and viewport length `v`. Its extent in NDC is
/// `s * (o + d -/+ w) / (SCALE_ONE * v)`, compared here multiplied out.
pub open spec fn outside_axis(s: int, o: int, d: int, w: int, v: int) -> bool {
    s * (o + d + w) < -(SCALE_ONE * v) || s * (o + d - w) > SCALE_ONE * v
}

/// The tile `tile` (in pixels) of a `full_width` x `full_height` image shows in the
/// viewport at this scale and offset: on neither axis does it lie wholly outside.
pub open spec fn spec_tile_visible(
    scale: u64,
    offset: Point2,
    viewport: Point2,
    full_width: u32,
    full_height: u32,
    tile: crate::tiling::TileRect,
) -> bool {
    !outside_axis(
        scale as int,
        offset.x as int,
        SUBPIXEL * (2 * tile.x + tile.width - full_width),
        SUBPIXEL * tile.width,
        viewport.x as int,
    ) && !outside_axis(
        scale as int,
        offset.y as int,
        SUBPIXEL * (full_height - 2 * tile.y - tile.height),
        SUBPIXEL * tile.height,
        viewport.y as int,
    )
}

fn outside(s: u64, o: i64, d: i128, w: i128, v: i64) -> (r: bool)
    requires
        s <= MAX_SCALE,
        in_limit_spec(Point2 { x: o, y: v }),
        -0x100_0000_0000_0000 <= d <= 0x100_0000_0000_0000,
        0 <= w <= 0x100_0000_0000_0000,
    ensures
        r == outside_axis(s as int, o as int, d as int, w as int, v as int),
{
    let hi: i128 = o as i128 + d + w;
    let lo: i128 = o as i128 + d - w;
    proof {
        lemma_product_bound(s as int, hi as int, MAX_SCALE as int, 0x300_0000_0000_0000);
        lemma_product_bound(s as int, lo as int, MAX_SCALE as int, 0x300_0000_0000_0000);
        assert(MAX_SCALE * 0x300_0000_0000_0000 <= 0x1000_0000_0000_0000_0000_0000_0000_0000)
            by (nonlinear_arith);
        lemma_product_bound(SCALE_ONE as int, v as int, SCALE_ONE as int, COORD_LIMIT as int);
        assert(SCALE_ONE * COORD_LIMIT <= 0x1000_0000_0000_0000_0000_0000_0000_0000)
            by (nonlinear_arith);
    }
    let limit: i128 = SCALE_ONE as i128 * v as i128;
    (s as i128) * hi < -limit || (s as i128) * lo > limit
}

/// Whether tile `tile` of a `full_width` x `full_height` image shows in a viewport of
/// size `viewport` at scale `scale` and pan offset `offset`; tiles wholly outside
/// the clip square are culled.
pub fn tile_visible(
    scale: u64,
    offset: Point2,
    viewport: Point2,
    full_width: u32,
    full_height: u32,
    tile: crate::tiling::TileRect,
) -> (r: bool)
    requires
        scale <= MAX_SCALE,
        in_limit_spec(offset),
        in_limit_spec(viewport),
    ensures
        r == spec_tile_visible(scale, offset, viewport, full_width, full_height, tile),
{
    let sub = SUBPIXEL as i128;
    let dx: i128 = sub * (2 * (tile.x as i128) + tile.width as i128 - full_width as i128);
    let dy: i128 = sub * (full_height as i128 - 2 * (tile.y as i128) - tile.height as i128);
    let wx: i128 = sub * tile.width as i128;
    let wy: i128 = sub * tile.height as i128;
    !outside(scale, offset.x, dx, wx, viewport.x) && !outside(scale, offset.y, dy, wy, viewport.y)
}

} // verus!
