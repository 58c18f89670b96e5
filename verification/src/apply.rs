//! One tick of one playing clip: the clock moves on, every bone of the clip
//! is looked up in the scene, and every curve of a bone that was found is
//! sampled. What comes out is the list of writes for the host to perform.

use crate::clip::{AnimationClip, Channel, ClipHandle, ClipLibrary, VariableCurve};
use crate::playing::{elapsed_after, instant_of, Instant, PlayingAnimation, RootMotion};
use crate::resolve::{find_bone, resized, resolved};
use crate::sample::{sample, sample_at, Sample};
use crate::scene::{Entity, Scene};
use vstd::prelude::*;

verus! {

/// Where the value of a curve is written.
#[derive(Clone, Copy, Debug, PartialEq, Eq, Structural)]
pub enum Destination {
    /// Into the transform of the node itself.
    Node,
    /// The rotation goes to the movement of the whole character, and the
    /// node keeps its own.
    RootRotation,
    /// The translation is that of the root bone. Seen from the root entity,
    /// its horizontal part goes to the movement of the whole character if
    /// `xz_to_root`, its vertical part if `y_to_root`; what is left stays
    /// with the node.
    RootTranslation { xz_to_root: bool, y_to_root: bool },
}

/// One value to blend into the scene.
#[derive(Clone, Copy, Debug, PartialEq, Eq, Structural)]
pub struct CurveWrite {
    /// The node that the curve moves.
    pub target: Entity,
    /// The bone of the clip that names the node.
    pub bone_id: usize,
    /// The index of the curve among the curves of that bone.
    pub curve: usize,
    /// The channel that the curve drives.
    pub channel: Channel,
    /// The keyframes to blend: a pose or a segment.
    pub sample: Sample,
    /// Where the blended value goes.
    pub destination: Destination,
}

/// How a tick of a clip ended.
#[derive(Clone, Copy, Debug, PartialEq, Eq, Structural)]
pub enum Status {
    /// The handle names no clip: nothing was done.
    NoClip,
    /// A node above the root hosts a player of its own: nothing is written.
    Conflict,
    /// The curves were sampled.
    Sampled,
}

/// What one tick of one clip asks of the host.
#[derive(Debug)]
pub struct Applied {
    /// The clip that was played, if one was chosen.
    pub clip: Option<ClipHandle>,
    /// The weight with which the values are blended into the scene.
    pub weight: i64,
    /// How the tick ended.
    pub status: Status,
    /// The instant at which the curves were sampled.
    pub instant: Instant,
    /// The node of the root-motion bone, if root motion is on and the bone
    /// was found.
    pub root_bone: Option<Entity>,
    /// The values to blend, in the order of the bones and of their curves.
    pub writes: Vec<CurveWrite>,
    /// The bones whose path names no node, in order.
    pub unresolved: Vec<usize>,
    /// Whether the host owes the position of the root bone to
    /// [`RootMotion::settle`] once it has performed the writes.
    pub settles: bool,
}

/// Everything that a pass over the bones of a clip reads.
pub struct Pass {
    /// The hierarchy in which the bones are looked up.
    pub scene: Scene,
    /// The node below which the bones are looked up.
    pub root: Entity,
    /// The clip whose bones are gone through.
    pub clip: AnimationClip,
    /// The cache of each bone as the pass finds it.
    pub caches: Seq<Seq<Option<Entity>>>,
    /// The instant at which the curves are sampled.
    pub now: Instant,
    /// Whether the clip starts over when it ends.
    pub repeat: bool,
    /// The node of the root-motion bone, if there is one.
    pub root_bone: Option<Entity>,
    /// The root-motion settings, if root motion is on.
    pub root_motion: Option<RootMotion>,
}

/// Where the value of a curve goes. Only a segment on the root-motion bone
/// is ever steered away from the node: its rotation if the rotation is
/// taken from the bone, its translation always, split by the two flags.
pub open spec fn destination_of(
    channel: Channel,
    sample: Sample,
    on_root_bone: bool,
    root_motion: Option<RootMotion>,
) -> Destination {
    if sample is Segment && on_root_bone && root_motion.is_some() {
        match channel {
            Channel::Rotation => if root_motion.unwrap().root_transform_rotation {
                Destination::RootRotation
            } else {
                Destination::Node
            },
            Channel::Translation => Destination::RootTranslation {
                xz_to_root: root_motion.unwrap().root_transform_xz,
                y_to_root: root_motion.unwrap().root_transform_y,
            },
            Channel::Scale => Destination::Node,
        }
    } else {
        Destination::Node
    }
}

/// The cache of each bone at the start of a pass: the one kept from the
/// last tick if there is one for each bone, else an empty one.
pub open spec fn starting_caches(kept: Seq<Vec<Option<Entity>>>, bones: nat) -> Seq<
    Seq<Option<Entity>>,
> {
    Seq::new(
        bones,
        |b: int|
            if kept.len() == bones {
                kept[b]@
            } else {
                Seq::<Option<Entity>>::empty()
            },
    )
}

/// The writes that are there, in order.
pub open spec fn kept(candidates: Seq<Option<CurveWrite>>) -> Seq<CurveWrite>
    decreases candidates.len(),
{
    if candidates.len() == 0 {
        Seq::empty()
    } else {
        match candidates.last() {
            Some(w) => kept(candidates.drop_last()).push(w),
            None => kept(candidates.drop_last()),
        }
    }
}

impl Pass {
    /// The node that the path of bone `b` names, and the cache of the bone
    /// after the search.
    pub open spec fn bone_target(&self, b: int) -> (Option<Entity>, Seq<Option<Entity>>) {
        resolved(
            &self.scene,
            self.root,
            self.clip.bone_paths()[b],
            resized(self.caches[b], self.clip.bone_paths()[b].len()),
            1,
        )
    }

    /// What curve `k` of bone `b` writes to `target`, if it writes at all.
    pub open spec fn write_for(&self, target: Entity, b: int, k: int) -> Option<CurveWrite> {
        let curve = self.clip.bones()[b][k];
        let s = sample_at(curve.keyframe_timestamps@, self.now.at as int, self.repeat);
        if s is Pose || s is Segment {
            Some(
                CurveWrite {
                    target,
                    bone_id: b as usize,
                    curve: k as usize,
                    channel: curve.keyframes.spec_channel(),
                    sample: s,
                    destination: destination_of(
                        curve.keyframes.spec_channel(),
                        s,
                        self.root_bone == Some(target),
                        self.root_motion,
                    ),
                },
            )
        } else {
            None
        }
    }

    /// What each curve of bone `b` writes to `target`, if it writes at all.
    pub open spec fn candidates(&self, target: Entity, b: int) -> Seq<Option<CurveWrite>> {
        Seq::new(self.clip.bones()[b].len(), |k: int| self.write_for(target, b, k))
    }

    /// The writes of bone `b`: none if its path names no node.
    pub open spec fn bone_writes(&self, b: int) -> Seq<CurveWrite> {
        match self.bone_target(b).0 {
            Some(target) => kept(self.candidates(target, b)),
            None => Seq::empty(),
        }
    }

    /// The writes of the first `n` bones, in order.
    pub open spec fn writes(&self, n: nat) -> Seq<CurveWrite>
        decreases n,
    {
        if n == 0 {
            Seq::empty()
        } else {
            self.writes((n - 1) as nat) + self.bone_writes(n - 1)
        }
    }

    /// Those of the first `n` bones whose path names no node, in order.
    pub open spec fn unresolved(&self, n: nat) -> Seq<usize>
        decreases n,
    {
        if n == 0 {
            Seq::empty()
        } else if self.bone_target(n - 1).0.is_none() {
            self.unresolved((n - 1) as nat).push((n - 1) as usize)
        } else {
            self.unresolved((n - 1) as nat)
        }
    }
}

/// A curve with a single keyframe is written as a pose to the node itself,
/// whatever the instant, whether the clip repeats or not, and whether the
/// node is the root-motion bone or not.
pub proof fn lemma_single_keyframe_is_written_as_a_pose(
    pass: Pass,
    target: Entity,
    b: int,
    k: int,
)
    requires
        pass.clip.bones()[b][k].keyframe_timestamps@.len() == 1,
    ensures
        pass.write_for(target, b, k) == Some(
            CurveWrite {
                target,
                bone_id: b as usize,
                curve: k as usize,
                channel: pass.clip.bones()[b][k].keyframes.spec_channel(),
                sample: Sample::Pose,
                destination: Destination::Node,
            },
        ),
{
}

/// The node of the root-motion bone: the node that its path names below
/// `root`, searched without a cache.
pub open spec fn root_bone_of(scene: &Scene, root: Entity, root_motion: Option<RootMotion>) -> Option<
    Entity,
> {
    match root_motion {
        Some(rm) => resolved(
            scene,
            root,
            rm.root_node@,
            resized(Seq::<Option<Entity>>::empty(), rm.root_node@.len()),
            1,
        ).0,
        None => None,
    }
}

/// The pass that a tick makes over `clip`, for an animation in the state
/// `before`.
pub open spec fn pass_of(
    before: PlayingAnimation,
    paused: bool,
    root: Entity,
    dt: i64,
    clip: AnimationClip,
    scene: Scene,
) -> Pass {
    Pass {
        scene,
        root,
        clip,
        caches: starting_caches(before.path_cache@, clip.bones().len()),
        now: instant_of(
            before.elapsed,
            elapsed_after(before.elapsed, dt, before.speed, paused),
            clip.spec_duration() as i64,
            before.speed,
            before.repeat,
        ),
        repeat: before.repeat,
        root_bone: root_bone_of(&scene, root, before.root_motion),
        root_motion: before.root_motion,
    }
}

/// Whether one tick takes an animation from the state `before` to the state
/// `after` and asks `applied` of the host.
///
/// Without a clip under the handle, nothing changes and nothing is asked.
/// Else the clock has moved on and there is a cache for each bone. With a
/// player on a node above `root`, nothing is written and the caches are as
/// they started. Else the writes are those of all the bones of the clip,
/// and the cache of each bone is as its search left it.
pub open spec fn is_tick_of(
    before: PlayingAnimation,
    after: PlayingAnimation,
    applied: Applied,
    weight: i64,
    paused: bool,
    root: Entity,
    dt: i64,
    clips: ClipLibrary,
    scene: Scene,
) -> bool {
    &&& applied.clip == before.animation_clip
    &&& applied.weight == weight
    &&& applied.status == if clips.clip_of(before.animation_clip).is_none() {
        Status::NoClip
    } else if scene.player_on_way_up(scene.parent_of(root)) {
        Status::Conflict
    } else {
        Status::Sampled
    }
    &&& applied.status == Status::NoClip ==> {
        &&& after == before
        &&& applied.instant == Instant { at: 0, cycle: false }
    }
    &&& applied.status != Status::Sampled ==> {
        &&& applied.writes@ == Seq::<CurveWrite>::empty()
        &&& applied.unresolved@ == Seq::<usize>::empty()
        &&& applied.root_bone.is_none()
        &&& !applied.settles
    }
    &&& clips.clip_of(before.animation_clip) matches Some(clip) ==> {
        let pass = pass_of(before, paused, root, dt, clip, scene);
        let bones = clip.bones().len();
        &&& applied.instant == pass.now
        &&& after.elapsed == elapsed_after(before.elapsed, dt, before.speed, paused)
        &&& after.repeat == before.repeat
        &&& after.speed == before.speed
        &&& after.animation_clip == before.animation_clip
        &&& after.root_motion == before.root_motion
        &&& after.path_cache@.len() == bones
        &&& applied.status == Status::Conflict ==> forall|b: int|
            0 <= b < bones ==> (#[trigger] after.path_cache@[b])@ == pass.caches[b]
        &&& applied.status == Status::Sampled ==> {
            &&& applied.root_bone == pass.root_bone
            &&& applied.settles == before.root_motion.is_some()
            &&& applied.writes@ == pass.writes(bones)
            &&& applied.unresolved@ == pass.unresolved(bones)
            &&& forall|b: int|
                0 <= b < bones ==> (#[trigger] after.path_cache@[b])@ == pass.bone_target(b).1
        }
    }
}

/// A player on a node above the root of another player silences the lower
/// one: the tick of a clip below `root` writes nothing, names no root bone
/// and owes no root position, where `above` hosts a player and is reached
/// from the parent of `root` by `steps` steps up.
pub proof fn lemma_player_below_another_writes_nothing(
    before: PlayingAnimation,
    after: PlayingAnimation,
    applied: Applied,
    weight: i64,
    paused: bool,
    root: Entity,
    dt: i64,
    clips: ClipLibrary,
    scene: Scene,
    above: Entity,
    steps: nat,
)
    requires
        is_tick_of(before, after, applied, weight, paused, root, dt, clips, scene),
        scene.hosts_player(above),
        scene.ancestor_at(scene.parent_of(root), steps) == Some(above),
    ensures
        applied.status != Status::Sampled,
        applied.writes@.len() == 0,
        applied.root_bone.is_none(),
        !applied.settles,
{
}

/// Verifies that no node above a player hosts a player of its own.
/// `player_parent` is the parent of the node that hosts the player.
pub fn verify_no_ancestor_player(player_parent: Option<Entity>, scene: &Scene) -> (free: bool)
    requires
        scene.wf(),
    ensures
        free == !scene.player_on_way_up(player_parent),
{
    !scene.has_player_on_way_up(player_parent)
}

/// Where the value of a curve goes.
fn destination(
    channel: Channel,
    sample: Sample,
    on_root_bone: bool,
    root_motion: &Option<RootMotion>,
) -> (d: Destination)
    ensures
        d == destination_of(channel, sample, on_root_bone, *root_motion),
{
    match (sample, root_motion) {
        (Sample::Segment { .. }, Some(rm)) => {
            if on_root_bone {
                match channel {
                    Channel::Rotation => if rm.root_transform_rotation {
                        Destination::RootRotation
                    } else {
                        Destination::Node
                    },
                    Channel::Translation => Destination::RootTranslation {
                        xz_to_root: rm.root_transform_xz,
                        y_to_root: rm.root_transform_y,
                    },
                    Channel::Scale => Destination::Node,
                }
            } else {
                Destination::Node
            }
        },
        _ => Destination::Node,
    }
}

/// Samples the curves of one bone, and adds what they write to `writes`.
fn sample_bone(
    curves: &Vec<VariableCurve>,
    target: Entity,
    bone_id: usize,
    now: Instant,
    repeat: bool,
    root_bone: Option<Entity>,
    root_motion: &Option<RootMotion>,
    writes: &mut Vec<CurveWrite>,
    Ghost(pass): Ghost<Pass>,
)
    requires
        bone_id < pass.clip.bones().len(),
        pass.clip.wf(),
        curves@ == pass.clip.bones()[bone_id as int],
        now == pass.now,
        repeat == pass.repeat,
        root_bone == pass.root_bone,
        *root_motion == pass.root_motion,
    ensures
        final(writes)@ == old(writes)@ + kept(pass.candidates(target, bone_id as int)),
{
    let ghost all = pass.candidates(target, bone_id as int);
    let n = curves.len();
    let mut k: usize = 0;
    assert(all.take(0) =~= Seq::<Option<CurveWrite>>::empty());
    assert(old(writes)@ + kept(all.take(0)) =~= old(writes)@);
    while k < n
        invariant
            n == curves@.len(),
            k <= n,
            bone_id < pass.clip.bones().len(),
            pass.clip.wf(),
            curves@ == pass.clip.bones()[bone_id as int],
            now == pass.now,
            repeat == pass.repeat,
            root_bone == pass.root_bone,
            *root_motion == pass.root_motion,
            all == pass.candidates(target, bone_id as int),
            writes@ == old(writes)@ + kept(all.take(k as int)),
        decreases n - k,
    {
        let curve = &curves[k];
        assert(pass.clip.bones()[bone_id as int][k as int].well_formed());
        let s = sample(&curve.keyframe_timestamps, now.at, repeat);
        proof {
            assert(all.take(k + 1).drop_last() =~= all.take(k as int));
            assert(all.take(k + 1).last() == all[k as int]);
            assert(all[k as int] == pass.write_for(target, bone_id as int, k as int));
        }
        match s {
            Sample::Pose | Sample::Segment { .. } => {
                let channel = curve.keyframes.channel();
                let on_root_bone = root_bone == Some(target);
                let w = CurveWrite {
                    target,
                    bone_id,
                    curve: k,
                    channel,
                    sample: s,
                    destination: destination(channel, s, on_root_bone, root_motion),
                };
                writes.push(w);
                assert(writes@ =~= old(writes)@ + kept(all.take(k + 1)));
            },
            _ => {},
        }
        k += 1;
    }
    assert(all.take(n as int) =~= all);
}

/// As many empty caches as a clip has bones.
fn empty_caches(bones: usize) -> (caches: Vec<Vec<Option<Entity>>>)
    ensures
        caches@.len() == bones,
        forall|b: int| 0 <= b < bones ==> (#[trigger] caches@[b])@ == Seq::<Option<Entity>>::empty(),
{
    let mut caches: Vec<Vec<Option<Entity>>> = Vec::new();
    while caches.len() < bones
        invariant
            caches@.len() <= bones,
            forall|b: int|
                0 <= b < caches@.len() ==> (#[trigger] caches@[b])@ == Seq::<Option<Entity>>::empty(),
        decreases bones - caches@.len(),
    {
        caches.push(Vec::new());
    }
    caches
}

/// Plays one tick of `animation` below `root`.
///
/// Without a clip under its handle, nothing happens. Else the clock moves
/// on by `dt` ticks unless `paused`, and the animation gets a cache for
/// each bone of the clip. If a node above `root` hosts a player of its own,
/// nothing is written. Else every bone is looked up below `root`, and every
/// curve of a bone that was found is sampled at the instant of the tick.
pub fn apply_animation(
    weight: i64,
    animation: &mut PlayingAnimation,
    paused: bool,
    root: Entity,
    dt: i64,
    clips: &ClipLibrary,
    scene: &Scene,
) -> (applied: Applied)
    requires
        clips.wf(),
        scene.wf(),
    ensures
        is_tick_of(
            *old(animation),
            *final(animation),
            applied,
            weight,
            paused,
            root,
            dt,
            *clips,
            *scene,
        ),
{
    let mut applied = Applied {
        clip: animation.animation_clip,
        weight,
        status: Status::NoClip,
        instant: Instant { at: 0, cycle: false },
        root_bone: None,
        writes: Vec::new(),
        unresolved: Vec::new(),
        settles: false,
    };
    let clip = match clips.get(animation.animation_clip) {
        Some(clip) => clip,
        None => {
            return applied;
        },
    };
    assert(clip.wf());
    let ghost pass = pass_of(*old(animation), paused, root, dt, *clip, *scene);
    let now = animation.advance(dt, clip.duration(), paused);
    applied.instant = now;
    let bones = clip.bone_count();
    if animation.path_cache.len() != bones {
        animation.path_cache = empty_caches(bones);
    }
    assert forall|b: int| 0 <= b < bones implies (#[trigger] animation.path_cache@[b])@
        == pass.caches[b] by {}
    if !verify_no_ancestor_player(scene.parent(root), scene) {
        applied.status = Status::Conflict;
        return applied;
    }
    applied.status = Status::Sampled;
    let repeat = animation.repeat;
    let mut root_bone: Option<Entity> = None;
    if let Some(rm) = &animation.root_motion {
        let mut scratch: Vec<Option<Entity>> = Vec::new();
        root_bone = find_bone(root, &rm.root_node, scene, &mut scratch);
        applied.settles = true;
    }
    applied.root_bone = root_bone;
    let mut b: usize = 0;
    while b < bones
        invariant
            clip.wf(),
            bones == clip.bones().len(),
            bones == clip.bone_paths().len(),
            b <= bones,
            pass == pass_of(*old(animation), paused, root, dt, *clip, *scene),
            now == pass.now,
            repeat == pass.repeat,
            root_bone == pass.root_bone,
            animation.root_motion == pass.root_motion,
            animation.elapsed == elapsed_after(
                old(animation).elapsed,
                dt,
                old(animation).speed,
                paused,
            ),
            animation.repeat == old(animation).repeat,
            animation.speed == old(animation).speed,
            animation.animation_clip == old(animation).animation_clip,
            animation.root_motion == old(animation).root_motion,
            animation.path_cache@.len() == bones,
            forall|j: int| 0 <= j < b ==> (#[trigger] animation.path_cache@[j])@ == pass.bone_target(j).1,
            forall|j: int| b <= j < bones ==> (#[trigger] animation.path_cache@[j])@ == pass.caches[j],
            applied.clip == old(animation).animation_clip,
            applied.weight == weight,
            applied.status == Status::Sampled,
            applied.instant == now,
            applied.root_bone == root_bone,
            applied.settles == old(animation).root_motion.is_some(),
            applied.writes@ == pass.writes(b as nat),
            applied.unresolved@ == pass.unresolved(b as nat),
        decreases bones - b,
    {
        let path = clip.get_path(b).unwrap();
        let curves = clip.get_curves(b).unwrap();
        let target = find_bone(root, path, scene, &mut animation.path_cache[b]);
        assert(target == pass.bone_target(b as int).0);
        match target {
            Some(t) => {
                sample_bone(
                    curves,
                    t,
                    b,
                    now,
                    repeat,
                    root_bone,
                    &animation.root_motion,
                    &mut applied.writes,
                    Ghost(pass),
                );
            },
            None => {
                applied.unresolved.push(b);
                assert(pass.writes(b as nat) + Seq::<CurveWrite>::empty() =~= pass.writes(b as nat));
            },
        }
        b += 1;
    }
    applied
}

} // verus!
