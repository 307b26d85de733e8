//! Going idle: the main loop keeps rendering for a while after the last user
//! input, and then stops until the next input.
use vstd::prelude::*;
use std::time::Instant;

verus! {

#[verifier::external_type_specification]
#[verifier::external_body]
pub struct ExInstant(Instant);

/// Calls `Instant::now`.
///
/// Trusted: nothing is claimed of the result, which is the time of the call.
#[verifier::external_body]
fn now() -> Instant {
    Instant::now()
}

/// The time of the call, in nanoseconds since `epoch`: calls
/// `Instant::elapsed` and converts the result with `Duration::as_nanos`.
///
/// Trusted: nothing is claimed of the result, which depends on the time of
/// the call.
#[verifier::external_body]
fn nanos_since(epoch: &Instant) -> u128 {
    epoch.elapsed().as_nanos()
}

/// Handles the main loop going to idle when there is no user input for a
/// while.
///
/// Times are kept in nanoseconds since the moment the idler was made.
pub struct MainWindowIdler {
    epoch: Instant,
    idle_time: u128,
    idle_frame_count: u32,
    last_input_time: u128,
    last_input_frame: u32,
}

/// The settings and counters of an idler: how long (in nanoseconds) and for
/// how many frames it keeps rendering after an input, when the last input
/// happened (in nanoseconds since the idler was made), and the frames
/// rendered since then.
pub struct IdlerView {
    pub idle_time: u128,
    pub idle_frame_count: u32,
    pub last_input_time: u128,
    pub last_input_frame: u32,
}

impl View for MainWindowIdler {
    type V = IdlerView;

    closed spec fn view(&self) -> IdlerView {
        IdlerView {
            idle_time: self.idle_time,
            idle_frame_count: self.idle_frame_count,
            last_input_time: self.last_input_time,
            last_input_frame: self.last_input_frame,
        }
    }
}

impl Default for MainWindowIdler {
    /// Renders for one second and for 60 frames after the last input, which
    /// is taken to happen now, when the idler is made.
    fn default() -> (r: MainWindowIdler)
        ensures
            r@ == (IdlerView {
                idle_time: 1_000_000_000,
                idle_frame_count: 60,
                last_input_time: 0,
                last_input_frame: 0,
            }),
    {
        MainWindowIdler {
            epoch: now(),
            idle_time: 1_000_000_000,
            idle_frame_count: 60,
            last_input_time: 0,
            last_input_frame: 0,
        }
    }
}

/// Whether rendering goes on at time `now`: fewer frames than the limit
/// have been rendered since the last input, or less time than the idle time
/// has passed since it.
pub open spec fn spec_has_to_render_at(v: IdlerView, now: int) -> bool {
    v.last_input_frame < v.idle_frame_count || now - v.last_input_time < v.idle_time
}

/// Whether the window is redrawn when the events run out at time `now`:
/// while a mouse button is down, or while the idler keeps rendering.
pub open spec fn spec_redraw_when_idle_at(v: IdlerView, mouse_down: bool, now: int) -> bool {
    mouse_down || spec_has_to_render_at(v, now)
}

impl MainWindowIdler {
    /// Sets the maximum time, in nanoseconds, that the window will be
    /// rendered without user input.
    pub fn set_idle_time(&mut self, time_nanos: u128)
        ensures
            final(self)@ == (IdlerView { idle_time: time_nanos, ..old(self)@ }),
    {
        self.idle_time = time_nanos;
    }

    /// Sets the maximum number of frames that the window will be rendered
    /// without user input.
    pub fn set_idle_frame_count(&mut self, frame_count: u32)
        ensures
            final(self)@ == (IdlerView { idle_frame_count: frame_count, ..old(self)@ }),
    {
        self.idle_frame_count = frame_count;
    }

    /// Call this when the window is rendered: one more frame since the last
    /// input, saturating at the largest count.
    pub fn incr_frame(&mut self)
        ensures
            final(self)@ == (IdlerView {
                last_input_frame: if old(self)@.last_input_frame == u32::MAX {
                    u32::MAX
                } else {
                    (old(self)@.last_input_frame + 1) as u32
                },
                ..old(self)@
            }),
    {
        self.last_input_frame = self.last_input_frame.saturating_add(1);
    }

    /// Whether the window keeps rendering at time `now` (nanoseconds since
    /// the idler was made).
    pub fn has_to_render_at(&self, now: u128) -> (r: bool)
        ensures
            r == spec_has_to_render_at(self@, now as int),
    {
        self.last_input_frame < self.idle_frame_count || now < self.last_input_time || now
            - self.last_input_time < self.idle_time
    }

    /// Checks whether the window should go to idle or keep on rendering,
    /// with the clock read now.
    ///
    /// Whatever the clock says, rendering goes on while fewer frames than
    /// the limit have been rendered since the last input; past that, the
    /// answer is that of [`MainWindowIdler::has_to_render_at`] for the time
    /// read.
    pub fn has_to_render(&self) -> (r: bool)
        ensures
            self@.last_input_frame < self@.idle_frame_count ==> r,
            exists|t: u128| r == spec_has_to_render_at(self@, t as int),
    {
        let t = nanos_since(&self.epoch);
        let r = self.has_to_render_at(t);
        assert(r == spec_has_to_render_at(self@, t as int));
        r
    }

    /// Whether the window is redrawn when the events run out, at time `now`:
    /// while a mouse button is down (the user may be dragging), or while
    /// the idler keeps rendering.
    pub fn redraw_when_idle_at(&self, mouse_down: bool, now: u128) -> (r: bool)
        ensures
            r == spec_redraw_when_idle_at(self@, mouse_down, now as int),
    {
        mouse_down || self.has_to_render_at(now)
    }

    /// Whether the window is redrawn when the events run out, with the
    /// clock read now: as [`MainWindowIdler::redraw_when_idle_at`] says for
    /// the time read.
    pub fn redraw_when_idle(&self, mouse_down: bool) -> (r: bool)
        ensures
            mouse_down ==> r,
            self@.last_input_frame < self@.idle_frame_count ==> r,
            exists|t: u128| r == #[trigger] spec_redraw_when_idle_at(self@, mouse_down, t as int),
    {
        let t = nanos_since(&self.epoch);
        let r = self.redraw_when_idle_at(mouse_down, t);
        assert(r == spec_redraw_when_idle_at(self@, mouse_down, t as int));
        r
    }

    /// Notifies that user input happened at time `now` (nanoseconds since
    /// the idler was made): the frame count starts again.
    pub fn ping_user_input_at(&mut self, now: u128)
        ensures
            final(self)@ == (IdlerView { last_input_time: now, last_input_frame: 0, ..old(self)@ }),
    {
        self.last_input_time = now;
        self.last_input_frame = 0;
    }

    /// Notifies that user input happened now, with the clock read now.
    pub fn ping_user_input(&mut self)
        ensures
            final(self)@.last_input_frame == 0,
            final(self)@.idle_time == old(self)@.idle_time,
            final(self)@.idle_frame_count == old(self)@.idle_frame_count,
    {
        let t = nanos_since(&self.epoch);
        self.ping_user_input_at(t);
    }
}

/// After an input, the window keeps rendering for as many frames as the
/// limit, and for as long as the idle time, whichever ends later.
pub proof fn lemma_renders_after_input(v: IdlerView, frames: u32, now: int)
    requires
        frames < v.idle_frame_count || now - v.last_input_time < v.idle_time,
    ensures
        spec_has_to_render_at(IdlerView { last_input_frame: frames, ..v }, now),
{
}

/// Once both the frames and the idle time after the last input are used
/// up, the window goes idle.
pub proof fn lemma_idles_after_limits(v: IdlerView, now: int)
    requires
        v.last_input_frame >= v.idle_frame_count,
        now - v.last_input_time >= v.idle_time,
    ensures
        !spec_has_to_render_at(v, now),
{
}

} // verus!
