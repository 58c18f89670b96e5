//! The animation player: the controls of one animated character, the
//! clips that fade out behind the one that plays, and the tick that drives
//! them all.

use crate::apply::{apply_animation, is_tick_of, Applied};
use crate::clip::{ClipHandle, ClipLibrary, EntityPath};
use crate::playing::{PlayingAnimation, RootAnchor, RootMotion, RootMotionMode};
use crate::scene::{Entity, Scene};
use crate::units::{accrue, accrued, saturate, saturated, TICKS_PER_SECOND, UNIT};
use bevy_math::Vec3;
use vstd::prelude::*;

verus! {

/// A clip that is fading out while another one plays.
#[derive(Clone, Debug)]
pub struct AnimationTransition {
    /// The current weight. Starts at [`UNIT`] and falls during the fade-out.
    pub current_weight: i64,
    /// By how much the weight falls in a second.
    pub weight_decline_per_sec: i64,
    /// The clip that is fading out.
    pub animation: PlayingAnimation,
}

/// The fall of the weight per second that brings it from [`UNIT`] to zero
/// in `duration` ticks. A fade-out without duration is over at once.
pub open spec fn decline_rate(duration: i64) -> i64 {
    if duration <= 0 {
        i64::MAX
    } else {
        ((UNIT * TICKS_PER_SECOND) / (duration as int)) as i64
    }
}

/// The weight of `t` after `dt` ticks.
pub open spec fn weight_after(t: AnimationTransition, dt: i64) -> i64 {
    saturated(t.current_weight - accrued(t.weight_decline_per_sec as int, dt as int))
}

/// `t` after `dt` ticks, unless its weight is used up.
pub open spec fn fade(t: AnimationTransition, dt: i64) -> Option<AnimationTransition> {
    if weight_after(t, dt) > 0 {
        Some(AnimationTransition { current_weight: weight_after(t, dt), ..t })
    } else {
        None
    }
}

/// The transitions after `dt` ticks: each with its weight lowered, without
/// those whose weight is used up, in the order they had.
pub open spec fn faded(ts: Seq<AnimationTransition>, dt: i64) -> Seq<AnimationTransition>
    decreases ts.len(),
{
    if ts.len() == 0 {
        Seq::empty()
    } else {
        match fade(ts.last(), dt) {
            Some(t) => faded(ts.drop_last(), dt).push(t),
            None => faded(ts.drop_last(), dt),
        }
    }
}

/// No transition outlives its weight: after a tick, every transition that
/// is left has a weight above zero, and none was added.
pub proof fn lemma_faded_keeps_only_positive_weights(ts: Seq<AnimationTransition>, dt: i64)
    ensures
        faded(ts, dt).len() <= ts.len(),
        forall|i: int|
            0 <= i < faded(ts, dt).len() ==> (#[trigger] faded(ts, dt)[i]).current_weight > 0,
    decreases ts.len(),
{
    if ts.len() > 0 {
        lemma_faded_keeps_only_positive_weights(ts.drop_last(), dt);
    }
}

/// A transition whose weight is still above zero after a tick stays, and
/// one whose weight is used up goes, whatever is fading beside it.
pub proof fn lemma_faded_of_one(t: AnimationTransition, dt: i64)
    ensures
        faded(seq![t], dt) == match fade(t, dt) {
            Some(kept) => seq![kept],
            None => Seq::empty(),
        },
{
    assert(seq![t].drop_last() =~= Seq::<AnimationTransition>::empty());
    assert(faded(seq![t].drop_last(), dt) =~= Seq::<AnimationTransition>::empty());
    match fade(t, dt) {
        Some(kept) => {
            assert(Seq::<AnimationTransition>::empty().push(kept) =~= seq![kept]);
        },
        None => {},
    }
}

/// What one tick of a player asks of the host.
#[derive(Debug)]
pub struct PlayerTick {
    /// What the clip that plays asks, followed by what each clip that is
    /// fading out asks, oldest first. The host performs them in this order.
    pub layers: Vec<Applied>,
    /// Whether the movement of the root bone is added to the root entity.
    pub applies_root_motion: bool,
}

/// Animation controls of one character.
#[derive(Debug)]
pub struct AnimationPlayer {
    paused: bool,
    animation: PlayingAnimation,
    // Clips that the player is moving away from, oldest first. Mostly there
    // is none; a transition adds one, and a tick drops those that have
    // faded out.
    transitions: Vec<AnimationTransition>,
}

impl Default for AnimationPlayer {
    fn default() -> (player: Self)
        ensures
            !player.spec_paused(),
            player.primary().is_fresh(None),
            player.fading() == Seq::<AnimationTransition>::empty(),
    {
        AnimationPlayer {
            paused: false,
            animation: PlayingAnimation::new(None),
            transitions: Vec::new(),
        }
    }
}

/// The root-motion settings that a player starts with: the horizontal
/// translation is taken from the bone, the rest stays with it.
pub open spec fn is_initial_root_motion(
    rm: RootMotion,
    mode: RootMotionMode,
    root_node: EntityPath,
) -> bool {
    &&& rm.mode == mode
    &&& rm.root_node == root_node
    &&& !rm.root_transform_rotation
    &&& !rm.root_transform_y
    &&& rm.root_transform_xz
    &&& rm.anchor is Origin
}

/// Whether one tick takes a player, with the given state before it, to the
/// state `after` and asks `out` of the host.
///
/// A paused player that nobody has touched is left alone. Else the clip
/// that plays is ticked at full weight, then each clip that is fading out
/// at its own weight, oldest first.
pub open spec fn is_player_tick(
    paused: bool,
    primary: PlayingAnimation,
    fading: Seq<AnimationTransition>,
    after: AnimationPlayer,
    out: Option<PlayerTick>,
    root: Entity,
    changed: bool,
    dt: i64,
    clips: ClipLibrary,
    scene: Scene,
) -> bool {
    &&& after.spec_paused() == paused
    &&& after.fading().len() == fading.len()
    &&& if paused && !changed {
        &&& out.is_none()
        &&& after.primary() == primary
        &&& after.fading() == fading
    } else {
        &&& out.is_some()
        &&& out.unwrap().layers@.len() == fading.len() + 1
        &&& out.unwrap().applies_root_motion == (primary.root_motion matches Some(rm) && rm.mode
            == RootMotionMode::Enabled)
        &&& is_tick_of(
            primary,
            after.primary(),
            out.unwrap().layers@[0],
            UNIT,
            paused,
            root,
            dt,
            clips,
            scene,
        )
        &&& forall|k: int|
            0 <= k < fading.len() ==> {
                &&& (#[trigger] after.fading()[k]).current_weight == fading[k].current_weight
                &&& after.fading()[k].weight_decline_per_sec == fading[k].weight_decline_per_sec
                &&& is_tick_of(
                    fading[k].animation,
                    after.fading()[k].animation,
                    out.unwrap().layers@[k + 1],
                    fading[k].current_weight,
                    paused,
                    root,
                    dt,
                    clips,
                    scene,
                )
            }
    }
}

impl AnimationPlayer {
    /// Whether the player is paused.
    pub closed spec fn spec_paused(&self) -> bool {
        self.paused
    }

    /// The clip that plays.
    pub closed spec fn primary(&self) -> PlayingAnimation {
        self.animation
    }

    /// The clips that are fading out, oldest first.
    pub closed spec fn fading(&self) -> Seq<AnimationTransition> {
        self.transitions@
    }

    /// A player that plays nothing.
    pub fn new() -> (player: Self)
        ensures
            !player.spec_paused(),
            player.primary().is_fresh(None),
            player.fading() == Seq::<AnimationTransition>::empty(),
    {
        AnimationPlayer {
            paused: false,
            animation: PlayingAnimation::new(None),
            transitions: Vec::new(),
        }
    }

    /// Turns root motion off.
    pub fn disable_root_motion(&mut self) -> (ret: &mut Self)
        ensures
            ret.primary().root_motion.is_none(),
            ret.primary().repeat == old(self).primary().repeat,
            ret.primary().speed == old(self).primary().speed,
            ret.primary().elapsed == old(self).primary().elapsed,
            ret.primary().animation_clip == old(self).primary().animation_clip,
            ret.primary().path_cache == old(self).primary().path_cache,
            ret.fading() == old(self).fading(),
            ret.spec_paused() == old(self).spec_paused(),
            *final(self) == *final(ret),
    {
        self.animation.root_motion = None;
        self
    }

    /// Turns root motion on: the bone that `root_node` names moves the
    /// character, at first with its horizontal translation only.
    pub fn set_root_motion(&mut self, mode: RootMotionMode, root_node: EntityPath) -> (ret:
        &mut Self)
        ensures
            ret.primary().root_motion.is_some(),
            is_initial_root_motion(ret.primary().root_motion.unwrap(), mode, root_node),
            ret.primary().repeat == old(self).primary().repeat,
            ret.primary().speed == old(self).primary().speed,
            ret.primary().elapsed == old(self).primary().elapsed,
            ret.primary().animation_clip == old(self).primary().animation_clip,
            ret.primary().path_cache == old(self).primary().path_cache,
            ret.fading() == old(self).fading(),
            ret.spec_paused() == old(self).spec_paused(),
            *final(self) == *final(ret),
    {
        self.animation.root_motion = Some(
            RootMotion {
                mode,
                root_node,
                root_transform_rotation: false,
                root_transform_y: false,
                root_transform_xz: true,
                anchor: RootAnchor::Origin,
            },
        );
        self
    }

    /// Starts to play a clip from its beginning, and drops every clip that
    /// was fading out: a hard cut.
    pub fn start(&mut self, handle: ClipHandle) -> (ret: &mut Self)
        ensures
            ret.primary().is_fresh(Some(handle)),
            ret.fading() == Seq::<AnimationTransition>::empty(),
            ret.spec_paused() == old(self).spec_paused(),
            *final(self) == *final(ret),
    {
        self.animation = PlayingAnimation::new(Some(handle));
        self.transitions.clear();
        self
    }

    /// Starts to play a clip from its beginning, while the clip that played
    /// fades out over `transition_duration` ticks behind those that are
    /// fading out already.
    pub fn start_with_transition(&mut self, handle: ClipHandle, transition_duration: i64) -> (ret:
        &mut Self)
        ensures
            ret.primary().is_fresh(Some(handle)),
            ret.fading() == old(self).fading().push(
                AnimationTransition {
                    current_weight: UNIT,
                    weight_decline_per_sec: decline_rate(transition_duration),
                    animation: old(self).primary(),
                },
            ),
            ret.spec_paused() == old(self).spec_paused(),
            *final(self) == *final(ret),
    {
        let mut animation = PlayingAnimation::new(Some(handle));
        core::mem::swap(&mut animation, &mut self.animation);
        let rate: i64 = if transition_duration <= 0 {
            i64::MAX
        } else {
            (UNIT * TICKS_PER_SECOND) / transition_duration
        };
        self.transitions.push(
            AnimationTransition { current_weight: UNIT, weight_decline_per_sec: rate, animation },
        );
        self
    }

    /// Starts to play a clip from its beginning, unless it is the clip
    /// that plays and the player is not paused.
    pub fn play(&mut self, handle: ClipHandle) -> (ret: &mut Self)
        ensures
            ret.spec_paused() == old(self).spec_paused(),
            if old(self).primary().animation_clip != Some(handle) || old(self).spec_paused() {
                &&& ret.primary().is_fresh(Some(handle))
                &&& ret.fading() == Seq::<AnimationTransition>::empty()
            } else {
                &&& ret.primary() == old(self).primary()
                &&& ret.fading() == old(self).fading()
            },
            *final(self) == *final(ret),
    {
        if !self.plays(handle) || self.paused {
            self.animation = PlayingAnimation::new(Some(handle));
            self.transitions.clear();
        }
        self
    }

    /// Starts to play a clip from its beginning with a fade-out of the clip
    /// that played, unless it is the clip that plays and the player is not
    /// paused.
    pub fn play_with_transition(&mut self, handle: ClipHandle, transition_duration: i64) -> (ret:
        &mut Self)
        ensures
            ret.spec_paused() == old(self).spec_paused(),
            if old(self).primary().animation_clip != Some(handle) || old(self).spec_paused() {
                &&& ret.primary().is_fresh(Some(handle))
                &&& ret.fading() == old(self).fading().push(
                    AnimationTransition {
                        current_weight: UNIT,
                        weight_decline_per_sec: decline_rate(transition_duration),
                        animation: old(self).primary(),
                    },
                )
            } else {
                &&& ret.primary() == old(self).primary()
                &&& ret.fading() == old(self).fading()
            },
            *final(self) == *final(ret),
    {
        if !self.plays(handle) || self.paused {
            let mut animation = PlayingAnimation::new(Some(handle));
            core::mem::swap(&mut animation, &mut self.animation);
            let rate: i64 = if transition_duration <= 0 {
                i64::MAX
            } else {
                (UNIT * TICKS_PER_SECOND) / transition_duration
            };
            self.transitions.push(
                AnimationTransition {
                    current_weight: UNIT,
                    weight_decline_per_sec: rate,
                    animation,
                },
            );
        }
        self
    }

    /// Whether `handle` names the clip that plays.
    fn plays(&self, handle: ClipHandle) -> (same: bool)
        ensures
            same == (self.primary().animation_clip == Some(handle)),
    {
        match self.animation.animation_clip {
            Some(h) => h == handle,
            None => false,
        }
    }

    /// Sets the clip to start over when it ends.
    pub fn repeat(&mut self) -> (ret: &mut Self)
        ensures
            ret.primary().repeat,
            ret.primary().speed == old(self).primary().speed,
            ret.primary().elapsed == old(self).primary().elapsed,
            ret.primary().animation_clip == old(self).primary().animation_clip,
            ret.primary().path_cache == old(self).primary().path_cache,
            ret.primary().root_motion == old(self).primary().root_motion,
            ret.fading() == old(self).fading(),
            ret.spec_paused() == old(self).spec_paused(),
            *final(self) == *final(ret),
    {
        self.animation.repeat = true;
        self
    }

    /// Stops the clip from starting over.
    pub fn stop_repeating(&mut self) -> (ret: &mut Self)
        ensures
            !ret.primary().repeat,
            ret.primary().speed == old(self).primary().speed,
            ret.primary().elapsed == old(self).primary().elapsed,
            ret.primary().animation_clip == old(self).primary().animation_clip,
            ret.primary().path_cache == old(self).primary().path_cache,
            ret.primary().root_motion == old(self).primary().root_motion,
            ret.fading() == old(self).fading(),
            ret.spec_paused() == old(self).spec_paused(),
            *final(self) == *final(ret),
    {
        self.animation.repeat = false;
        self
    }

    /// Pauses the player.
    pub fn pause(&mut self)
        ensures
            final(self).spec_paused(),
            final(self).primary() == old(self).primary(),
            final(self).fading() == old(self).fading(),
    {
        self.paused = true;
    }

    /// Lets the player go on.
    pub fn resume(&mut self)
        ensures
            !final(self).spec_paused(),
            final(self).primary() == old(self).primary(),
            final(self).fading() == old(self).fading(),
    {
        self.paused = false;
    }

    /// Whether the player is paused.
    pub fn is_paused(&self) -> (paused: bool)
        ensures
            paused == self.spec_paused(),
    {
        self.paused
    }

    /// Speed of play, as a ratio of [`UNIT`].
    pub fn speed(&self) -> (speed: i64)
        ensures
            speed == self.primary().speed,
    {
        self.animation.speed
    }

    /// Sets the speed of play, as a ratio of [`UNIT`].
    pub fn set_speed(&mut self, speed: i64) -> (ret: &mut Self)
        ensures
            ret.primary().speed == speed,
            ret.primary().repeat == old(self).primary().repeat,
            ret.primary().elapsed == old(self).primary().elapsed,
            ret.primary().animation_clip == old(self).primary().animation_clip,
            ret.primary().path_cache == old(self).primary().path_cache,
            ret.primary().root_motion == old(self).primary().root_motion,
            ret.fading() == old(self).fading(),
            ret.spec_paused() == old(self).spec_paused(),
            *final(self) == *final(ret),
    {
        self.animation.speed = speed;
        self
    }

    /// Time played so far, in ticks.
    pub fn elapsed(&self) -> (elapsed: i64)
        ensures
            elapsed == self.primary().elapsed,
    {
        self.animation.elapsed
    }

    /// Seeks to a time in the clip, in ticks.
    pub fn set_elapsed(&mut self, elapsed: i64) -> (ret: &mut Self)
        ensures
            ret.primary().elapsed == elapsed,
            ret.primary().repeat == old(self).primary().repeat,
            ret.primary().speed == old(self).primary().speed,
            ret.primary().animation_clip == old(self).primary().animation_clip,
            ret.primary().path_cache == old(self).primary().path_cache,
            ret.primary().root_motion == old(self).primary().root_motion,
            ret.fading() == old(self).fading(),
            ret.spec_paused() == old(self).spec_paused(),
            *final(self) == *final(ret),
    {
        self.animation.elapsed = elapsed;
        self
    }

    /// The clip that plays, if one was chosen.
    pub fn animation_clip(&self) -> (handle: Option<ClipHandle>)
        ensures
            handle == self.primary().animation_clip,
    {
        self.animation.animation_clip
    }

    /// Number of clips that are fading out.
    pub fn transition_count(&self) -> (n: usize)
        ensures
            n == self.fading().len(),
    {
        self.transitions.len()
    }

    /// The weight of the clip that is fading out at `index`, oldest first.
    pub fn transition_weight(&self, index: usize) -> (weight: Option<i64>)
        ensures
            weight == if index < self.fading().len() {
                Some(self.fading()[index as int].current_weight)
            } else {
                None
            },
    {
        if index < self.transitions.len() {
            Some(self.transitions[index].current_weight)
        } else {
            None
        }
    }

    /// Notes where the root bone of a layer stands after the host has
    /// performed the writes of a tick. Layer zero is the clip that plays,
    /// layer `k + 1` the clip that is fading out at `k`.
    ///
    /// Returns where the bone stood before, for the movement since then.
    /// Returns `None`, and notes nothing, for a layer that is not there or
    /// has no root motion; returns `None` when the clip has just wrapped
    /// round.
    pub fn settle_root_motion(&mut self, layer: usize, cycle: bool, position: Vec3) -> (since:
        Option<RootAnchor>)
        ensures
            final(self).spec_paused() == old(self).spec_paused(),
            final(self).fading().len() == old(self).fading().len(),
            layer > old(self).fading().len() ==> since.is_none() && *final(self) == *old(self),
            layer <= old(self).fading().len() ==> {
                let before = if layer == 0 {
                    old(self).primary()
                } else {
                    old(self).fading()[layer - 1].animation
                };
                let after = if layer == 0 {
                    final(self).primary()
                } else {
                    final(self).fading()[layer - 1].animation
                };
                &&& after.repeat == before.repeat
                &&& after.speed == before.speed
                &&& after.elapsed == before.elapsed
                &&& after.animation_clip == before.animation_clip
                &&& after.path_cache == before.path_cache
                &&& layer != 0 ==> final(self).primary() == old(self).primary()
                &&& forall|k: int|
                    0 <= k < old(self).fading().len() && k != layer - 1 ==> final(self).fading()[k]
                        == old(self).fading()[k]
                &&& layer != 0 ==> final(self).fading()[layer - 1].current_weight == old(
                    self,
                ).fading()[layer - 1].current_weight
                &&& layer != 0 ==> final(self).fading()[layer - 1].weight_decline_per_sec == old(
                    self,
                ).fading()[layer - 1].weight_decline_per_sec
                &&& match before.root_motion {
                    Some(rm) => {
                        &&& after.root_motion.is_some()
                        &&& after.root_motion.unwrap().anchor == RootAnchor::At(position)
                        &&& after.root_motion.unwrap().mode == rm.mode
                        &&& after.root_motion.unwrap().root_node == rm.root_node
                        &&& after.root_motion.unwrap().root_transform_rotation
                            == rm.root_transform_rotation
                        &&& after.root_motion.unwrap().root_transform_y == rm.root_transform_y
                        &&& after.root_motion.unwrap().root_transform_xz == rm.root_transform_xz
                        &&& since == if cycle {
                            None
                        } else {
                            Some(rm.anchor)
                        }
                    },
                    None => since.is_none() && after.root_motion.is_none(),
                }
            },
    {
        if layer > self.transitions.len() {
            return None;
        }
        if layer == 0 {
            match &mut self.animation.root_motion {
                Some(rm) => rm.settle(cycle, position),
                None => None,
            }
        } else {
            match &mut self.transitions[layer - 1].animation.root_motion {
                Some(rm) => rm.settle(cycle, position),
                None => None,
            }
        }
    }
}

/// Lowers the weight of every clip that is fading out by what its fall per
/// second comes to over `dt` ticks, and drops those whose weight is used up.
pub fn update_transitions(player: &mut AnimationPlayer, dt: i64)
    ensures
        final(player).fading() == faded(old(player).fading(), dt),
        final(player).primary() == old(player).primary(),
        final(player).spec_paused() == old(player).spec_paused(),
{
    let ghost all = player.transitions@;
    let ghost mut done: int = 0;
    let mut i: usize = 0;
    assert(all.take(0) =~= Seq::<AnimationTransition>::empty());
    assert(player.transitions@ =~= faded(all.take(0), dt) + all.skip(0));
    while i < player.transitions.len()
        invariant
            all == old(player).fading(),
            0 <= done <= all.len(),
            i == faded(all.take(done), dt).len(),
            player.transitions@ == faded(all.take(done), dt) + all.skip(done),
            player.animation == old(player).animation,
            player.paused == old(player).paused,
        decreases all.len() - done,
    {
        assert(player.transitions@[i as int] == all[done]);
        assert(all.take(done + 1).drop_last() =~= all.take(done));
        assert(all.take(done + 1).last() == all[done]);
        let t = &player.transitions[i];
        let weight = saturate(t.current_weight as i128 - accrue(t.weight_decline_per_sec, dt));
        assert(weight == weight_after(all[done], dt));
        if weight > 0 {
            player.transitions[i].current_weight = weight;
            assert(player.transitions@[i as int] == fade(all[done], dt).unwrap());
            assert(player.transitions@ =~= faded(all.take(done + 1), dt) + all.skip(done + 1));
            i += 1;
        } else {
            player.transitions.remove(i);
            assert(player.transitions@ =~= faded(all.take(done + 1), dt) + all.skip(done + 1));
        }
        proof {
            done = done + 1;
        }
    }
    assert(all.take(all.len() as int) =~= all);
    assert(player.transitions@ =~= faded(all, dt));
}

/// Ticks one player: the clip that plays, then every clip that is fading
/// out, oldest first. `changed` tells whether the player was touched since
/// the last tick; a paused player that was not touched is left alone.
pub fn run_animation_player(
    root: Entity,
    player: &mut AnimationPlayer,
    changed: bool,
    dt: i64,
    clips: &ClipLibrary,
    scene: &Scene,
) -> (out: Option<PlayerTick>)
    requires
        clips.wf(),
        scene.wf(),
    ensures
        is_player_tick(
            old(player).spec_paused(),
            old(player).primary(),
            old(player).fading(),
            *final(player),
            out,
            root,
            changed,
            dt,
            *clips,
            *scene,
        ),
{
    let paused = player.paused;
    if paused && !changed {
        return None;
    }
    let applies_root_motion = match &player.animation.root_motion {
        Some(rm) => match rm.mode {
            RootMotionMode::Enabled => true,
            RootMotionMode::Locked => false,
        },
        None => false,
    };
    let mut layers: Vec<Applied> = Vec::new();
    let first = apply_animation(UNIT, &mut player.animation, paused, root, dt, clips, scene);
    layers.push(first);
    let n = player.transitions.len();
    let mut k: usize = 0;
    while k < n
        invariant
            clips.wf(),
            scene.wf(),
            n == old(player).fading().len(),
            n == player.transitions@.len(),
            k <= n,
            player.paused == paused,
            paused == old(player).spec_paused(),
            layers@.len() == k + 1,
            is_tick_of(
                old(player).primary(),
                player.animation,
                layers@[0],
                UNIT,
                paused,
                root,
                dt,
                *clips,
                *scene,
            ),
            forall|j: int|
                0 <= j < k ==> {
                    &&& (#[trigger] player.transitions@[j]).current_weight == old(
                        player,
                    ).fading()[j].current_weight
                    &&& player.transitions@[j].weight_decline_per_sec == old(
                        player,
                    ).fading()[j].weight_decline_per_sec
                    &&& is_tick_of(
                        old(player).fading()[j].animation,
                        player.transitions@[j].animation,
                        layers@[j + 1],
                        old(player).fading()[j].current_weight,
                        paused,
                        root,
                        dt,
                        *clips,
                        *scene,
                    )
                },
            forall|j: int| k <= j < n ==> player.transitions@[j] == old(player).fading()[j],
        decreases n - k,
    {
        let weight = player.transitions[k].current_weight;
        let layer = apply_animation(
            weight,
            &mut player.transitions[k].animation,
            paused,
            root,
            dt,
            clips,
            scene,
        );
        layers.push(layer);
        k += 1;
    }
    Some(PlayerTick { layers, applies_root_motion })
}

/// A player with the node that hosts it.
#[derive(Debug)]
pub struct PlayerSlot {
    /// The node that hosts the player: the root of what it animates.
    pub root: Entity,
    /// Whether the player was touched since the last tick.
    pub changed: bool,
    /// The player.
    pub player: AnimationPlayer,
}

/// Ticks every player: its fading clips lose weight, then its clips are
/// played. A paused player that was not touched is left alone altogether.
pub fn animation_player(
    players: &mut Vec<PlayerSlot>,
    dt: i64,
    clips: &ClipLibrary,
    scene: &Scene,
) -> (out: Vec<Option<PlayerTick>>)
    requires
        clips.wf(),
        scene.wf(),
    ensures
        final(players)@.len() == old(players)@.len(),
        out@.len() == old(players)@.len(),
        forall|i: int|
            0 <= i < old(players)@.len() ==> {
                let before = old(players)@[i];
                let after = #[trigger] final(players)@[i];
                &&& after.root == before.root
                &&& after.changed == before.changed
                &&& is_player_tick(
                    before.player.spec_paused(),
                    before.player.primary(),
                    if before.player.spec_paused() && !before.changed {
                        before.player.fading()
                    } else {
                        faded(before.player.fading(), dt)
                    },
                    after.player,
                    out@[i],
                    before.root,
                    before.changed,
                    dt,
                    *clips,
                    *scene,
                )
            },
{
    let n = players.len();
    let mut out: Vec<Option<PlayerTick>> = Vec::new();
    let mut i: usize = 0;
    while i < n
        invariant
            clips.wf(),
            scene.wf(),
            n == old(players)@.len(),
            n == players@.len(),
            i <= n,
            out@.len() == i,
            forall|j: int| i <= j < n ==> players@[j] == old(players)@[j],
            forall|j: int|
                0 <= j < i ==> {
                    let before = old(players)@[j];
                    let after = #[trigger] players@[j];
                    &&& after.root == before.root
                    &&& after.changed == before.changed
                    &&& is_player_tick(
                        before.player.spec_paused(),
                        before.player.primary(),
                        if before.player.spec_paused() && !before.changed {
                            before.player.fading()
                        } else {
                            faded(before.player.fading(), dt)
                        },
                        after.player,
                        out@[j],
                        before.root,
                        before.changed,
                        dt,
                        *clips,
                        *scene,
                    )
                },
        decreases n - i,
    {
        let root = players[i].root;
        let changed = players[i].changed;
        if !(players[i].player.paused && !changed) {
            update_transitions(&mut players[i].player, dt);
        }
        let tick = run_animation_player(root, &mut players[i].player, changed, dt, clips, scene);
        out.push(tick);
        i += 1;
    }
    out
}

} // verus!
