//! The state of one clip being played: its clock, its cache of resolved
//! nodes and its root-motion settings.

use crate::clip::{ClipHandle, EntityPath};
use crate::scene::Entity;
use crate::units::{remainder, remainder_toward_zero, saturate, saturated, scale, scaled, UNIT};
use bevy_math::Vec3;
use vstd::prelude::*;

verus! {

/// Whether the movement taken from the root bone is given to the character.
#[derive(Clone, Copy, Debug, PartialEq, Eq, Structural)]
pub enum RootMotionMode {
    /// The movement is applied to the root entity.
    Enabled,
    /// The movement is worked out and withheld.
    Locked,
}

impl Default for RootMotionMode {
    fn default() -> (mode: Self)
        ensures
            mode == RootMotionMode::Enabled,
    {
        RootMotionMode::Enabled
    }
}

/// Where the root bone stood when it was last sampled.
#[derive(Clone, Copy, Debug)]
pub enum RootAnchor {
    /// It has not been sampled yet: it counts as standing at the origin.
    Origin,
    /// It stood at this position.
    At(Vec3),
}

/// Which bone moves the whole character, and which parts of its movement
/// are taken from the bone and given to the character.
#[derive(Clone, Debug)]
pub struct RootMotion {
    /// Whether the movement is applied or withheld.
    pub mode: RootMotionMode,
    /// The bone that supplies the movement.
    pub root_node: EntityPath,
    /// Whether the rotation is taken from the bone.
    pub root_transform_rotation: bool,
    /// Whether the vertical translation is taken from the bone.
    pub root_transform_y: bool,
    /// Whether the horizontal translation is taken from the bone.
    pub root_transform_xz: bool,
    /// Where the bone stood when it was last sampled.
    pub anchor: RootAnchor,
}

impl RootMotion {
    /// Whether these settings are `before` after the root bone was seen at
    /// `position`: the position is noted, the rest is as it was, and
    /// `since` is where the bone stood before, unless the clip has just
    /// wrapped round.
    pub open spec fn is_settled(
        &self,
        before: RootMotion,
        cycle: bool,
        position: Vec3,
        since: Option<RootAnchor>,
    ) -> bool {
        &&& self.anchor == RootAnchor::At(position)
        &&& self.mode == before.mode
        &&& self.root_node == before.root_node
        &&& self.root_transform_rotation == before.root_transform_rotation
        &&& self.root_transform_y == before.root_transform_y
        &&& self.root_transform_xz == before.root_transform_xz
        &&& since == if cycle {
            None
        } else {
            Some(before.anchor)
        }
    }

    /// The movement of a tick is measured from the position of the tick
    /// before it: what is handed out as the earlier position, in a tick that
    /// is no wrap, is what the tick before reported.
    pub proof fn lemma_movement_is_measured_from_the_last_position(
        first: RootMotion,
        second: RootMotion,
        third: RootMotion,
        cycle: bool,
        earlier: Vec3,
        later: Vec3,
        since_earlier: Option<RootAnchor>,
        since_later: Option<RootAnchor>,
    )
        requires
            second.is_settled(first, cycle, earlier, since_earlier),
            third.is_settled(second, false, later, since_later),
        ensures
            since_later == Some(RootAnchor::At(earlier)),
            third.anchor == RootAnchor::At(later),
    {
    }

    /// Notes where the root bone stands now. Returns where it stood before,
    /// for the movement since then, unless the clip has just wrapped round:
    /// a wrap yields no movement.
    pub fn settle(&mut self, cycle: bool, position: Vec3) -> (since: Option<RootAnchor>)
        ensures
            final(self).is_settled(*old(self), cycle, position, since),
    {
        let before = self.anchor;
        self.anchor = RootAnchor::At(position);
        if cycle {
            None
        } else {
            Some(before)
        }
    }
}

/// The instant at which the curves of a clip are sampled in one tick.
#[derive(Clone, Copy, Debug, PartialEq, Eq, Structural)]
pub struct Instant {
    /// The time on the clip's own timeline, in ticks.
    pub at: i64,
    /// Whether the clip has wrapped round in this tick.
    pub cycle: bool,
}

/// `t` folded into a clip of the given duration. A clip without extent has
/// only the instant zero.
pub open spec fn folded(t: int, duration: int) -> int {
    if duration > 0 {
        remainder_toward_zero(t, duration)
    } else {
        0
    }
}

/// The elapsed time after a tick of `dt` ticks at the given speed.
pub open spec fn elapsed_after(elapsed: i64, dt: i64, speed: i64, paused: bool) -> i64 {
    if paused {
        elapsed
    } else {
        saturated(elapsed + scaled(dt as int, speed as int))
    }
}

/// The instant to sample at, when the elapsed time went from `before` to
/// `after`.
///
/// A repeating clip folds the time into its duration, and has wrapped round
/// when the folded time moved against the direction of play. A time that
/// is still negative is moved up by one duration.
pub open spec fn instant_of(
    before: i64,
    after: i64,
    duration: i64,
    speed: i64,
    repeat: bool,
) -> Instant {
    let start = folded(before as int, duration as int);
    let now = if repeat {
        folded(after as int, duration as int)
    } else {
        after as int
    };
    Instant {
        at: (if now < 0 {
            now + duration
        } else {
            now
        }) as i64,
        cycle: repeat && ((speed > 0 && now < start) || (speed < 0 && now > start)),
    }
}

/// Folds `t` into a clip of the given duration.
fn fold(t: i64, duration: i64) -> (r: i64)
    ensures
        r == folded(t as int, duration as int),
        duration > 0 ==> -duration < r < duration,
{
    if duration > 0 {
        remainder(t, duration)
    } else {
        0
    }
}

/// One clip being played.
#[derive(Clone, Debug)]
pub struct PlayingAnimation {
    /// Whether the clip starts over when it ends.
    pub repeat: bool,
    /// Speed of play as a ratio of [`UNIT`]; negative plays backwards.
    pub speed: i64,
    /// Time played so far, in ticks. It is not folded into the duration.
    pub elapsed: i64,
    /// The clip, if one was chosen.
    pub animation_clip: Option<ClipHandle>,
    /// For each bone of the clip, the nodes found for the parts of its path.
    pub path_cache: Vec<Vec<Option<Entity>>>,
    /// The root-motion settings, if root motion is on.
    pub root_motion: Option<RootMotion>,
}

impl Default for PlayingAnimation {
    fn default() -> (fresh: Self)
        ensures
            fresh.is_fresh(None),
    {
        PlayingAnimation::new(None)
    }
}

impl PlayingAnimation {
    /// Whether this is the state in which a clip starts to play: at time
    /// zero, at speed one, not repeating, nothing cached, no root motion.
    pub open spec fn is_fresh(&self, clip: Option<ClipHandle>) -> bool {
        &&& !self.repeat
        &&& self.speed == UNIT
        &&& self.elapsed == 0
        &&& self.animation_clip == clip
        &&& self.path_cache@.len() == 0
        &&& self.root_motion.is_none()
    }

    /// The state in which `clip` starts to play.
    pub fn new(clip: Option<ClipHandle>) -> (fresh: Self)
        ensures
            fresh.is_fresh(clip),
    {
        PlayingAnimation {
            repeat: false,
            speed: UNIT,
            elapsed: 0,
            animation_clip: clip,
            path_cache: Vec::new(),
            root_motion: None,
        }
    }

    /// Moves the clock on by `dt` ticks unless paused, and tells the instant
    /// to sample at in a clip of the given duration.
    pub fn advance(&mut self, dt: i64, duration: i64, paused: bool) -> (now: Instant)
        requires
            duration >= 0,
        ensures
            final(self).elapsed == elapsed_after(old(self).elapsed, dt, old(self).speed, paused),
            now == instant_of(
                old(self).elapsed,
                final(self).elapsed,
                duration,
                old(self).speed,
                old(self).repeat,
            ),
            final(self).repeat == old(self).repeat,
            final(self).speed == old(self).speed,
            final(self).animation_clip == old(self).animation_clip,
            final(self).path_cache == old(self).path_cache,
            final(self).root_motion == old(self).root_motion,
    {
        let start = fold(self.elapsed, duration);
        if !paused {
            let step = scale(dt, self.speed);
            self.elapsed = saturate(self.elapsed as i128 + step);
        }
        let now = if self.repeat {
            fold(self.elapsed, duration)
        } else {
            self.elapsed
        };
        let cycle = self.repeat && ((self.speed > 0 && now < start) || (self.speed < 0 && now
            > start));
        Instant {
            at: if now < 0 {
                now + duration
            } else {
                now
            },
            cycle,
        }
    }
}

} // verus!
