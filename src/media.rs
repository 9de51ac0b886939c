//! Decoded images and frame-based animations.
use std::sync::Arc;
use vstd::prelude::*;

verus! {

/// Identity of an uploaded pixel buffer. The decoding side hands out increasing
/// values from a counter it owns.
#[derive(Clone, Copy, Debug, PartialEq, Eq, Structural)]
pub struct ImageId(pub u64);

impl ImageId {
    pub fn new(value: u64) -> (r: ImageId)
        ensures
            r.0 == value,
    {
        ImageId(value)
    }

    pub fn value(&self) -> (r: u64)
        ensures
            r == self.0,
    {
        self.0
    }
}

/// A decoded RGBA8 image: `width * height` pixels of four bytes, row by row.
#[derive(Clone, Debug)]
pub struct ImageData {
    pub pixels: Vec<u8>,
    pub width: u32,
    pub height: u32,
    pub id: ImageId,
}

/// Bytes needed by a `w` x `h` RGBA8 image.
pub open spec fn rgba_size(w: u32, h: u32) -> int {
    w * h * 4
}

impl ImageData {
    pub fn new(pixels: Vec<u8>, width: u32, height: u32, id: ImageId) -> (r: ImageData)
        ensures
            r.pixels@ == pixels@,
            r.width == width,
            r.height == height,
            r.id == id,
    {
        ImageData { pixels, width, height, id }
    }

    /// `width * height * 4`.
    pub fn size_bytes(&self) -> (r: usize)
        requires
            rgba_size(self.width, self.height) <= usize::MAX,
        ensures
            r == rgba_size(self.width, self.height),
    {
        assert(self.width as int * self.height as int <= usize::MAX) by (nonlinear_arith)
            requires
                self.width as int * self.height as int * 4 <= usize::MAX,
        ;
        self.width as usize * self.height as usize * 4
    }
}

/// Relies on `Arc::clone`: the new handle points to the same value.
#[verifier::external_body]
pub(crate) fn share<T>(a: &Arc<T>) -> (r: Arc<T>)
    ensures
        *r == **a,
{
    Arc::clone(a)
}

/// Shortest frame delay, in milliseconds, taken as meant; shorter ones are malformed.
pub const MIN_FRAME_DELAY_MS: u64 = 20;

/// Delay used in place of a malformed one, in milliseconds.
pub const FALLBACK_FRAME_DELAY_MS: u64 = 100;

pub const NANOS_PER_MILLI: u64 = 1_000_000;

/// Display time, in nanoseconds, of a frame whose file asks for `ms` milliseconds:
/// delays under `MIN_FRAME_DELAY_MS` become `FALLBACK_FRAME_DELAY_MS`; the product
/// saturates at `u64::MAX`.
pub fn frame_delay_nanos(ms: u64) -> (r: u64)
    ensures
        ms < MIN_FRAME_DELAY_MS ==> r == FALLBACK_FRAME_DELAY_MS * NANOS_PER_MILLI,
        ms >= MIN_FRAME_DELAY_MS && ms * NANOS_PER_MILLI <= u64::MAX ==> r == ms
            * NANOS_PER_MILLI,
        ms >= MIN_FRAME_DELAY_MS && ms * NANOS_PER_MILLI > u64::MAX ==> r == u64::MAX,
        r > 0,
{
    if ms < MIN_FRAME_DELAY_MS {
        FALLBACK_FRAME_DELAY_MS * NANOS_PER_MILLI
    } else {
        match ms.checked_mul(NANOS_PER_MILLI) {
            Some(ns) => ns,
            None => u64::MAX,
        }
    }
}

/// One frame of an animation: its pixels and how long it stays on screen, in nanoseconds.
#[derive(Clone, Debug)]
pub struct Frame {
    pub data: Arc<ImageData>,
    pub delay: u64,
}

/// Frame clock of an animation. Times are nanoseconds of a monotonic clock that the
/// caller reads; `deadline` is when the current frame ends.
#[derive(Clone, Debug)]
pub struct Animation {
    frames: Vec<Frame>,
    current: usize,
    deadline: u64,
}

/// `a + b`, or `u64::MAX` where that does not fit.
pub open spec fn sat_add(a: int, b: int) -> int {
    if a + b > u64::MAX {
        u64::MAX as int
    } else {
        a + b
    }
}

/// Frame index and deadline after catching up to `now`: while the deadline has been
/// reached, move to the next frame (wrapping) and add its delay to the deadline.
pub open spec fn catch_up(delays: Seq<u64>, cur: int, deadline: int, now: int) -> (int, int)
    decreases if now >= deadline {
        now - deadline + 1
    } else {
        0
    },
{
    if now < deadline || delays.len() == 0 {
        (cur, deadline)
    } else {
        let next = (cur + 1) % (delays.len() as int);
        let d = sat_add(deadline, delays[next] as int);
        if d <= deadline {
            (next, d)
        } else {
            catch_up(delays, next, d, now)
        }
    }
}

impl Animation {
    pub open spec fn delays(&self) -> Seq<u64> {
        self.frames_view().map_values(|f: Frame| f.delay)
    }

    pub closed spec fn frames_view(&self) -> Seq<Frame> {
        self.frames@
    }

    pub closed spec fn current_spec(&self) -> int {
        self.current as int
    }

    pub closed spec fn deadline_spec(&self) -> int {
        self.deadline as int
    }

    /// At least one frame, each with a non-zero delay, and a current index in range.
    pub open spec fn wf(&self) -> bool {
        &&& self.frames_view().len() > 0
        &&& 0 <= self.current_spec() < self.frames_view().len()
        &&& forall|i: int|
            0 <= i < self.frames_view().len() ==> #[trigger] self.frames_view()[i].delay > 0
    }

    /// Starts at frame 0 at time `now`; the first frame ends after its delay.
    pub fn new(frames: Vec<Frame>, now: u64) -> (r: Animation)
        requires
            frames@.len() > 0,
            forall|i: int| 0 <= i < frames@.len() ==> #[trigger] frames@[i].delay > 0,
        ensures
            r.wf(),
            r.frames_view() == frames@,
            r.current_spec() == 0,
            r.deadline_spec() == sat_add(now as int, frames@[0].delay as int),
    {
        let deadline = now.saturating_add(frames[0].delay);
        Animation { frames, current: 0, deadline }
    }

    pub fn current_image(&self) -> (r: &Arc<ImageData>)
        requires
            self.wf(),
        ensures
            *r == self.frames_view()[self.current_spec()].data,
    {
        &self.frames[self.current].data
    }

    pub fn frame_count(&self) -> (r: usize)
        ensures
            r == self.frames_view().len(),
    {
        self.frames.len()
    }

    pub fn current_index(&self) -> (r: usize)
        ensures
            r == self.current_spec(),
    {
        self.current
    }

    /// Time left, at `now`, until the current frame ends; zero once it is due.
    pub fn time_until_next_frame(&self, now: u64) -> (r: u64)
        ensures
            now < self.deadline_spec() ==> r == self.deadline_spec() - now,
            now >= self.deadline_spec() ==> r == 0,
    {
        self.deadline.saturating_sub(now)
    }

    /// Moves to the next frame (wrapping) and pushes the deadline back by its delay.
    fn advance(&mut self)
        requires
            old(self).wf(),
        ensures
            final(self).wf(),
            final(self).frames_view() == old(self).frames_view(),
            final(self).current_spec() == (old(self).current_spec() + 1) % (
            old(self).frames_view().len() as int),
            final(self).deadline_spec() == sat_add(
                old(self).deadline_spec(),
                old(self).delays()[final(self).current_spec()] as int,
            ),
            old(self).deadline < u64::MAX ==> final(self).deadline > old(self).deadline,
    {
        let n = self.frames.len();
        let next = (self.current + 1) % n;
        assert(self.delays()[next as int] == self.frames@[next as int].delay);
        self.current = next;
        self.deadline = self.deadline.saturating_add(self.frames[next].delay);
    }

    /// Advances the clock to `now`, catching up every frame whose end has passed in
    /// one call. Returns the pixels of the new current frame when the clock moved,
    /// and `None` while the current frame is still due.
    pub fn tick(&mut self, now: u64) -> (r: Option<Arc<ImageData>>)
        requires
            old(self).wf(),
            now < u64::MAX,
        ensures
            final(self).wf(),
            final(self).frames_view() == old(self).frames_view(),
            now < old(self).deadline_spec() ==> r.is_none() && *final(self) == *old(self),
            now >= old(self).deadline_spec() ==> {
                &&& (final(self).current_spec(), final(self).deadline_spec()) == catch_up(
                    old(self).delays(),
                    old(self).current_spec(),
                    old(self).deadline_spec(),
                    now as int,
                )
                &&& final(self).deadline_spec() > now
                &&& r is Some
                &&& *r->0 == *final(self).frames_view()[final(self).current_spec()].data
            },
    {
        if now < self.deadline {
            return None;
        }
        let ghost delays = self.delays();
        let ghost frames = self.frames_view();
        let ghost start = (self.current as int, self.deadline as int);
        let ghost target = catch_up(delays, start.0, start.1, now as int);
        self.advance();
        assert(target == catch_up(delays, self.current as int, self.deadline as int, now as int));
        while self.deadline <= now
            invariant
                self.wf(),
                now < u64::MAX,
                frames == self.frames_view(),
                delays == self.delays(),
                catch_up(delays, start.0, start.1, now as int) == catch_up(
                    delays,
                    self.current as int,
                    self.deadline as int,
                    now as int,
                ),
            decreases if self.deadline <= now {
                now - self.deadline + 1
            } else {
                0
            },
        {
            let ghost before = (self.current as int, self.deadline as int);
            self.advance();
            assert(catch_up(delays, before.0, before.1, now as int) == catch_up(
                delays,
                self.current as int,
                self.deadline as int,
                now as int,
            ));
        }
        Some(share(&self.frames[self.current].data))
    }
}

/// Generations of load requests: each request gets a new, larger number, and
/// only the result of the latest request is taken; older ones are stale.
#[derive(Clone, Copy, Debug)]
pub struct LoadGenerations {
    latest: u64,
}

impl LoadGenerations {
    pub closed spec fn latest_spec(&self) -> u64 {
        self.latest
    }

    /// No request yet.
    pub fn new() -> (r: LoadGenerations)
        ensures
            r.latest_spec() == 0,
    {
        LoadGenerations { latest: 0 }
    }

    /// Starts a request and returns its generation, one above the previous one.
    pub fn begin(&mut self) -> (r: u64)
        requires
            old(self).latest_spec() < u64::MAX,
        ensures
            r == old(self).latest_spec() + 1,
            final(self).latest_spec() == r,
    {
        self.latest = self.latest + 1;
        self.latest
    }

    /// Whether a result of generation `g` is still wanted: it is the latest request.
    pub fn is_current(&self, g: u64) -> (r: bool)
        ensures
            r == (g == self.latest_spec()),
    {
        g == self.latest
    }

    pub fn latest(&self) -> (r: u64)
        ensures
            r == self.latest_spec(),
    {
        self.latest
    }
}

} // verus!
