//! The lifecycle of one on-screen surface: enter, idle, morph, exit. The springs that move it are
//! integrated elsewhere; what decides is whether each has settled.

use vstd::prelude::*;

verus! {

/// Lifecycle of one on-screen surface.
#[derive(Clone, Copy, Debug, PartialEq, Eq, Structural)]
pub enum Phase {
    /// Spawning: small and faint to measured size, scale 1, opacity 1.
    Enter,
    /// Settled: only marquee and progress move.
    Idle,
    /// Content swap: crossfade, geometry to the new size.
    Morph,
    /// Dismissing: opacity and scale collapse, then the surface is destroyed.
    Exit,
}

/// Which of a surface's springs have settled.
#[derive(Clone, Copy, Debug, PartialEq, Eq, Structural)]
pub struct Settled {
    pub width: bool,
    pub height: bool,
    pub scale: bool,
    pub opacity: bool,
    pub corner_radius: bool,
    pub crossfade: bool,
}

impl Settled {
    /// Whether every spring has settled.
    pub open spec fn all(self) -> bool {
        &&& self.width
        &&& self.height
        &&& self.scale
        &&& self.opacity
        &&& self.corner_radius
        &&& self.crossfade
    }
}

/// The phase after a tick: entering ends once scale, opacity and width have settled, morphing once
/// crossfade, width and height have.
pub open spec fn next_phase_spec(phase: Phase, s: Settled) -> Phase {
    match phase {
        Phase::Enter => if s.scale && s.opacity && s.width {
            Phase::Idle
        } else {
            Phase::Enter
        },
        Phase::Morph => if s.crossfade && s.width && s.height {
            Phase::Idle
        } else {
            Phase::Morph
        },
        Phase::Idle => Phase::Idle,
        Phase::Exit => Phase::Exit,
    }
}

/// The phase after a tick.
pub fn next_phase(phase: Phase, s: Settled) -> (r: Phase)
    ensures
        r == next_phase_spec(phase, s),
{
    match phase {
        Phase::Enter => if s.scale && s.opacity && s.width {
            Phase::Idle
        } else {
            Phase::Enter
        },
        Phase::Morph => if s.crossfade && s.width && s.height {
            Phase::Idle
        } else {
            Phase::Morph
        },
        Phase::Idle => Phase::Idle,
        Phase::Exit => Phase::Exit,
    }
}

/// Whether another frame is called for: a marquee scrolls, the surface is on its way out, or a
/// spring is still moving.
pub open spec fn needs_frame_spec(phase: Phase, s: Settled, marquee_active: bool) -> bool {
    marquee_active || phase == Phase::Exit || !s.all()
}

/// Whether another frame is called for.
pub fn needs_frame(phase: Phase, s: Settled, marquee_active: bool) -> (r: bool)
    ensures
        r == needs_frame_spec(phase, s, marquee_active),
{
    marquee_active || phase == Phase::Exit || !(s.width && s.height && s.scale && s.opacity
        && s.corner_radius && s.crossfade)
}

/// Whether a surface can be destroyed: it is on its way out, and `faded` says that it is hardly
/// visible any more.
pub fn exit_done(phase: Phase, faded: bool) -> (r: bool)
    ensures
        r == (phase == Phase::Exit && faded),
{
    phase == Phase::Exit && faded
}

/// The time between two frames.
#[derive(Clone, Copy, Debug, PartialEq, Eq, Structural)]
pub enum FrameDelta {
    /// The first frame: a nominal 1/60 s.
    Nominal,
    /// This many ms.
    Millis(u32),
    /// Over 1/30 s: counts as 1/30 s, so that a hitch never explodes the integrator.
    Capped,
}

/// How far `now` lies after `prev` on a clock of 32 bits that wraps around.
pub open spec fn elapsed_spec(prev: u32, now: u32) -> u32 {
    if now >= prev {
        (now - prev) as u32
    } else {
        (0x1_0000_0000 + now - prev) as u32
    }
}

/// The time between two frames by their timestamps: 33 ms are below 1/30 s, 34 ms above.
pub open spec fn delta_spec(prev: Option<u32>, now: u32) -> FrameDelta {
    match prev {
        None => FrameDelta::Nominal,
        Some(p) => if elapsed_spec(p, now) <= 33 {
            FrameDelta::Millis(elapsed_spec(p, now))
        } else {
            FrameDelta::Capped
        },
    }
}

/// The time between two frames by their timestamps (ms, monotonic, wrapping at 32 bits).
pub fn compute_dt(prev: Option<u32>, now: u32) -> (r: FrameDelta)
    ensures
        r == delta_spec(prev, now),
{
    match prev {
        None => FrameDelta::Nominal,
        Some(p) => {
            let d: u32 = now.wrapping_sub(p);
            if d <= 33 {
                FrameDelta::Millis(d)
            } else {
                FrameDelta::Capped
            }
        },
    }
}

/// At rest nothing asks for frames: a settled surface without a marquee that is not on its way out
/// costs nothing.
pub proof fn rest_costs_nothing(phase: Phase, s: Settled)
    requires
        s.all(),
        phase != Phase::Exit,
    ensures
        next_phase_spec(phase, s) == Phase::Idle,
        !needs_frame_spec(phase, s, false),
        !needs_frame_spec(next_phase_spec(phase, s), s, false),
{
}

/// Nothing freezes midway: as long as a surface is entering or morphing with a spring still moving,
/// or is on its way out, it asks for frames.
pub proof fn motion_asks_for_frames(phase: Phase, s: Settled, marquee_active: bool)
    requires
        !s.all() || phase == Phase::Exit,
    ensures
        needs_frame_spec(next_phase_spec(phase, s), s, marquee_active),
{
}

/// A surface that is on its way out stays so.
pub proof fn exit_is_final(s: Settled)
    ensures
        next_phase_spec(Phase::Exit, s) == Phase::Exit,
{
}

/// Entering ends exactly when scale, opacity and width have settled, morphing exactly when the
/// crossfade, width and height have; nothing else changes the phase.
pub proof fn phases_end_when_their_springs_settle(s: Settled)
    ensures
        next_phase_spec(Phase::Enter, s) == Phase::Idle <==> s.scale && s.opacity && s.width,
        next_phase_spec(Phase::Enter, s) == Phase::Idle || next_phase_spec(Phase::Enter, s)
            == Phase::Enter,
        next_phase_spec(Phase::Morph, s) == Phase::Idle <==> s.crossfade && s.width && s.height,
        next_phase_spec(Phase::Morph, s) == Phase::Idle || next_phase_spec(Phase::Morph, s)
            == Phase::Morph,
        next_phase_spec(Phase::Idle, s) == Phase::Idle,
{
}

/// A surface at rest asks for a frame exactly when a marquee scrolls or one of the six springs
/// moves; on its way out it always does.
pub proof fn frames_are_asked_for_in_motion_only(phase: Phase, s: Settled, marquee_active: bool)
    ensures
        needs_frame_spec(phase, s, marquee_active) <==> marquee_active || phase == Phase::Exit
            || !s.width || !s.height || !s.scale || !s.opacity || !s.corner_radius || !s.crossfade,
{
}

/// The elapsed time leads from one timestamp to the next on a clock that wraps around at 2^32.
pub proof fn elapsed_time_leads_to_the_next_frame(prev: u32, now: u32)
    ensures
        (prev + elapsed_spec(prev, now)) % 0x1_0000_0000 == now,
{
}

/// The first frame is nominal. A later one takes the time since the one before, up to 33 ms; beyond
/// that it is capped.
pub proof fn hitches_are_capped(prev: u32, ms: u32)
    ensures
        ({
            let now = ((prev + ms) % 0x1_0000_0000) as u32;
            &&& delta_spec(None, now) == FrameDelta::Nominal
            &&& ms <= 33 ==> delta_spec(Some(prev), now) == FrameDelta::Millis(ms)
            &&& ms > 33 ==> delta_spec(Some(prev), now) == FrameDelta::Capped
        }),
{
}

/// A surface is destroyed only on its way out, once it has faded.
pub proof fn only_faded_exits_are_destroyed(phase: Phase, faded: bool, r: bool)
    requires
        call_ensures(exit_done, (phase, faded), r),
    ensures
        r ==> phase == Phase::Exit && faded,
        phase == Phase::Exit && faded ==> r,
{
}

} // verus!
