use animation_engine::apply::{
    apply_animation, verify_no_ancestor_player, CurveWrite, Destination, Status,
};
use animation_engine::clip::{
    AnimationClip, Channel, ClipHandle, ClipLibrary, EntityPath, Keyframes, VariableCurve,
};
use animation_engine::player::{
    animation_player, run_animation_player, update_transitions, AnimationPlayer, PlayerSlot,
};
use animation_engine::playing::{Instant, PlayingAnimation, RootAnchor, RootMotionMode};
use animation_engine::resolve::find_bone;
use animation_engine::sample::{sample, Sample};
use animation_engine::scene::{Entity, Scene};
use animation_engine::units::{accrue, remainder, saturate, scale, TICKS_PER_SECOND, UNIT};
use bevy_math::{Quat, Vec3};

const SECOND: i64 = 1_000_000;

fn path(parts: &[&str]) -> EntityPath {
    EntityPath {
        parts: parts.iter().map(|p| p.to_string()).collect(),
    }
}

fn rotation_curve(timestamps: &[i64]) -> VariableCurve {
    let n = timestamps.len();
    VariableCurve {
        keyframe_timestamps: timestamps.to_vec(),
        keyframes: Keyframes::Rotation(
            (0..n)
                .map(|i| Quat::from_rotation_y(i as f32 * std::f32::consts::FRAC_PI_2))
                .collect(),
        ),
    }
}

fn translation_curve(timestamps: &[i64]) -> VariableCurve {
    let n = timestamps.len();
    VariableCurve {
        keyframe_timestamps: timestamps.to_vec(),
        keyframes: Keyframes::Translation((0..n).map(|i| Vec3::new(i as f32, 0.0, 0.0)).collect()),
    }
}

fn scale_curve(timestamps: &[i64]) -> VariableCurve {
    let n = timestamps.len();
    VariableCurve {
        keyframe_timestamps: timestamps.to_vec(),
        keyframes: Keyframes::Scale((0..n).map(|i| Vec3::splat(1.0 + i as f32)).collect()),
    }
}

/// root "rig" -> "hip" -> "leg", and root -> "arm".
fn rig() -> (Scene, Entity, Entity, Entity, Entity) {
    let mut scene = Scene::new();
    let root = scene.spawn(Some("rig".to_string()));
    let hip = scene.spawn_child(root, Some("hip".to_string())).unwrap();
    let leg = scene.spawn_child(hip, Some("leg".to_string())).unwrap();
    let arm = scene.spawn_child(root, Some("arm".to_string())).unwrap();
    (scene, root, hip, leg, arm)
}

#[test]
fn units_scale_rounds_toward_zero() {
    assert_eq!(UNIT, 1_000_000);
    assert_eq!(TICKS_PER_SECOND, 1_000_000);
    assert_eq!(scale(500_000, UNIT), 500_000);
    assert_eq!(scale(3, UNIT / 2), 1);
    assert_eq!(scale(-3, UNIT / 2), -1);
    assert_eq!(scale(3, -UNIT / 2), -1);
    assert_eq!(scale(i64::MAX, i64::MAX), (i64::MAX as i128 * i64::MAX as i128) / 1_000_000);
    assert_eq!(accrue(2_000_000, 300_000), 600_000);
    assert_eq!(accrue(-7, 500_000), -3);
}

#[test]
fn units_saturate_and_remainder() {
    assert_eq!(saturate(0), 0);
    assert_eq!(saturate(i64::MAX as i128 + 1), i64::MAX);
    assert_eq!(saturate(i64::MIN as i128 - 1), i64::MIN);
    assert_eq!(saturate(-5), -5);
    assert_eq!(remainder(7, 3), 1);
    assert_eq!(remainder(-7, 3), -1);
    assert_eq!(remainder(i64::MIN, 10), -8);
    assert_eq!(remainder(6, 3), 0);
}

#[test]
fn clip_duration_is_latest_curve_end() {
    let mut clip = AnimationClip::new();
    assert_eq!(clip.duration(), 0);
    clip.add_curve_to_path(path(&["rig", "hip"]), rotation_curve(&[0, 2 * SECOND]));
    assert_eq!(clip.duration(), 2 * SECOND);
    clip.add_curve_to_path(path(&["rig", "arm"]), rotation_curve(&[0, SECOND]));
    assert_eq!(clip.duration(), 2 * SECOND);
    clip.add_curve_to_path(path(&["rig", "arm"]), translation_curve(&[0, 3 * SECOND, 5 * SECOND]));
    assert_eq!(clip.duration(), 5 * SECOND);
}

#[test]
fn clip_empty_and_negative_curves_leave_duration_at_zero() {
    let mut clip = AnimationClip::new();
    clip.add_curve_to_path(path(&["rig"]), rotation_curve(&[]));
    assert_eq!(clip.duration(), 0);
    clip.add_curve_to_path(path(&["rig"]), rotation_curve(&[-5, -2]));
    assert_eq!(clip.duration(), 0);
    assert_eq!(clip.curves().len(), 1);
    assert_eq!(clip.curves()[0].len(), 2);
}

#[test]
fn clip_same_path_reuses_bone() {
    let mut clip = AnimationClip::new();
    clip.add_curve_to_path(path(&["rig", "hip"]), rotation_curve(&[0, SECOND]));
    clip.add_curve_to_path(path(&["rig", "arm"]), rotation_curve(&[0, SECOND]));
    clip.add_curve_to_path(path(&["rig", "hip"]), translation_curve(&[0, 2 * SECOND]));
    assert_eq!(clip.curves().len(), 2);
    assert_eq!(clip.bone_count(), 2);
    assert_eq!(clip.bone_id(&path(&["rig", "hip"])), Some(0));
    assert_eq!(clip.bone_id(&path(&["rig", "arm"])), Some(1));
    assert_eq!(clip.bone_id(&path(&["rig", "leg"])), None);
    assert_eq!(clip.bone_id(&path(&["rig"])), None);
    let hip = clip.get_curves(0).unwrap();
    assert_eq!(hip.len(), 2);
    assert_eq!(hip[0].keyframes.channel(), Channel::Rotation);
    assert_eq!(hip[1].keyframes.channel(), Channel::Translation);
    assert_eq!(hip[1].keyframe_timestamps, vec![0, 2 * SECOND]);
    assert_eq!(clip.get_curves_by_path(&path(&["rig", "hip"])).unwrap().len(), 2);
    assert_eq!(clip.get_curves_by_path(&path(&["rig", "arm"])).unwrap().len(), 1);
    assert!(clip.get_curves_by_path(&path(&["rig", "leg"])).is_none());
    assert!(clip.get_curves(2).is_none());
    assert_eq!(clip.get_path(1).unwrap(), &path(&["rig", "arm"]));
    assert!(clip.get_path(2).is_none());
}

#[test]
fn curve_well_formedness_is_tested() {
    assert!(rotation_curve(&[]).is_well_formed());
    assert!(rotation_curve(&[0, 0, 1, 5]).is_well_formed());
    assert!(!rotation_curve(&[0, 2, 1]).is_well_formed());
    let short = VariableCurve {
        keyframe_timestamps: vec![0, 1, 2],
        keyframes: Keyframes::Scale(vec![Vec3::ONE]),
    };
    assert!(!short.is_well_formed());
    assert_eq!(short.keyframes.len(), 1);
}

#[test]
fn entity_paths_compare_by_parts() {
    assert!(path(&["a", "b"]).same_as(&path(&["a", "b"])));
    assert!(!path(&["a", "b"]).same_as(&path(&["a", "c"])));
    assert!(!path(&["a", "b"]).same_as(&path(&["a"])));
    assert!(!path(&["a"]).same_as(&path(&["a", "b"])));
    assert!(path(&[]).same_as(&path(&[])));
}

#[test]
fn sample_single_keyframe_is_a_pose_at_any_time() {
    let ts = vec![3 * SECOND];
    for at in [i64::MIN, -1, 0, 3 * SECOND, 4 * SECOND, i64::MAX] {
        assert_eq!(sample(&ts, at, false), Sample::Pose);
        assert_eq!(sample(&ts, at, true), Sample::Pose);
    }
}

#[test]
fn sample_empty_curve_writes_nothing() {
    assert_eq!(sample(&vec![], 0, false), Sample::Empty);
    assert_eq!(sample(&vec![], 5, true), Sample::Empty);
}

#[test]
fn sample_without_repeat_skips_outside_the_curve() {
    let ts = vec![SECOND, 2 * SECOND, 4 * SECOND];
    assert_eq!(sample(&ts, 0, false), Sample::NotStarted);
    assert_eq!(sample(&ts, SECOND - 1, false), Sample::NotStarted);
    assert_eq!(sample(&ts, 4 * SECOND, false), Sample::Finished);
    assert_eq!(sample(&ts, 4 * SECOND + 1, false), Sample::Finished);
    assert_eq!(sample(&ts, i64::MAX, false), Sample::Finished);
}

#[test]
fn sample_inside_a_segment_gives_the_exact_fraction() {
    let ts = vec![SECOND, 2 * SECOND, 4 * SECOND];
    assert_eq!(
        sample(&ts, SECOND, false),
        Sample::Segment { start: 0, end: 1, num: 0, den: 1_000_000 }
    );
    assert_eq!(
        sample(&ts, 1_250_000, false),
        Sample::Segment { start: 0, end: 1, num: 250_000, den: 1_000_000 }
    );
    assert_eq!(
        sample(&ts, 2 * SECOND, true),
        Sample::Segment { start: 1, end: 2, num: 0, den: 2_000_000 }
    );
    assert_eq!(
        sample(&ts, 3_500_000, true),
        Sample::Segment { start: 1, end: 2, num: 1_500_000, den: 2_000_000 }
    );
}

#[test]
fn sample_repeating_curve_wraps() {
    let ts = vec![SECOND, 2 * SECOND, 4 * SECOND];
    // just past the last timestamp
    assert_eq!(
        sample(&ts, 4 * SECOND + 1, true),
        Sample::Segment { start: 2, end: 0, num: 4_000_001, den: 1_000_000 }
    );
    // before the first timestamp
    assert_eq!(
        sample(&ts, 250_000, true),
        Sample::Segment { start: 2, end: 0, num: 250_000, den: 1_000_000 }
    );
    // exactly on the last timestamp the curve is finished, repeating or not
    assert_eq!(sample(&ts, 4 * SECOND, true), Sample::Finished);
}

#[test]
fn sample_with_equal_timestamps_takes_the_last_of_them() {
    let ts = vec![0, SECOND, SECOND, 2 * SECOND];
    assert_eq!(
        sample(&ts, SECOND, false),
        Sample::Segment { start: 2, end: 3, num: 0, den: 1_000_000 }
    );
    let ends_twice = vec![0, SECOND, SECOND];
    assert_eq!(sample(&ends_twice, SECOND, false), Sample::Finished);
}

#[test]
fn sample_extreme_times_do_not_overflow() {
    let ts = vec![i64::MIN, i64::MAX];
    assert_eq!(
        sample(&ts, 0, false),
        Sample::Segment {
            start: 0,
            end: 1,
            num: -(i64::MIN as i128),
            den: i64::MAX as i128 - i64::MIN as i128,
        }
    );
}

#[test]
fn scene_hierarchy_is_recorded() {
    let (mut scene, root, hip, leg, arm) = rig();
    assert_eq!(scene.len(), 4);
    assert_eq!(root, Entity(0));
    assert_eq!(scene.parent(root), None);
    assert_eq!(scene.parent(hip), Some(root));
    assert_eq!(scene.parent(leg), Some(hip));
    assert_eq!(scene.children(root).unwrap(), &vec![hip, arm]);
    assert_eq!(scene.children(leg).unwrap(), &Vec::<Entity>::new());
    assert!(scene.children(Entity(99)).is_none());
    assert_eq!(scene.name(arm).unwrap(), "arm");
    assert!(scene.name(Entity(99)).is_none());
    assert_eq!(scene.spawn_child(Entity(99), None), None);
    assert_eq!(scene.len(), 4);
    let nameless = scene.spawn_child(root, None).unwrap();
    assert!(scene.name(nameless).is_none());
    scene.detach(hip);
    assert_eq!(scene.parent(hip), None);
    assert_eq!(scene.children(root).unwrap(), &vec![arm, nameless]);
    assert_eq!(scene.parent(leg), Some(hip));
    scene.detach(hip);
    assert_eq!(scene.children(root).unwrap(), &vec![arm, nameless]);
}

#[test]
fn find_bone_walks_the_path_and_fills_the_cache() {
    let (scene, root, hip, leg, arm) = rig();
    let mut cache = Vec::new();
    assert_eq!(find_bone(root, &path(&["rig", "hip", "leg"]), &scene, &mut cache), Some(leg));
    assert_eq!(cache, vec![None, Some(hip), Some(leg)]);
    let mut cache = vec![Some(arm); 5];
    assert_eq!(find_bone(root, &path(&["rig", "arm"]), &scene, &mut cache), Some(arm));
    assert_eq!(cache, vec![Some(arm), Some(arm)]);
    // the first part is not looked at
    let mut cache = Vec::new();
    assert_eq!(find_bone(root, &path(&["anything", "arm"]), &scene, &mut cache), Some(arm));
    // a path of the root alone, and an empty path, name the root
    let mut cache = Vec::new();
    assert_eq!(find_bone(root, &path(&["rig"]), &scene, &mut cache), Some(root));
    assert_eq!(cache, vec![None]);
    assert_eq!(find_bone(hip, &path(&[]), &scene, &mut cache), Some(hip));
    assert!(cache.is_empty());
}

#[test]
fn find_bone_fails_where_a_part_names_no_child() {
    let (scene, root, hip, _leg, _arm) = rig();
    let mut cache = Vec::new();
    assert_eq!(find_bone(root, &path(&["rig", "hip", "toe"]), &scene, &mut cache), None);
    assert_eq!(cache, vec![None, Some(hip), None]);
    let mut cache = Vec::new();
    assert_eq!(find_bone(root, &path(&["rig", "leg"]), &scene, &mut cache), None);
    assert_eq!(find_bone(Entity(77), &path(&["rig", "hip"]), &scene, &mut cache), None);
}

#[test]
fn find_bone_drops_a_stale_cache_entry() {
    let (mut scene, root, hip, leg, _arm) = rig();
    let bone = path(&["rig", "hip", "leg"]);
    let mut cache = Vec::new();
    assert_eq!(find_bone(root, &bone, &scene, &mut cache), Some(leg));
    assert_eq!(cache, vec![None, Some(hip), Some(leg)]);
    // the leg is taken away and another node of the same name is put in its place
    scene.detach(leg);
    assert_eq!(find_bone(root, &bone, &scene, &mut cache), None);
    let new_leg = scene.spawn_child(hip, Some("leg".to_string())).unwrap();
    assert_ne!(new_leg, leg);
    cache[2] = Some(leg);
    assert_eq!(find_bone(root, &bone, &scene, &mut cache), Some(new_leg));
    assert_eq!(cache, vec![None, Some(hip), Some(new_leg)]);
}

#[test]
fn find_bone_prefers_a_valid_cache_entry_over_an_earlier_namesake() {
    let mut scene = Scene::new();
    let root = scene.spawn(Some("rig".to_string()));
    let first = scene.spawn_child(root, Some("twin".to_string())).unwrap();
    let second = scene.spawn_child(root, Some("twin".to_string())).unwrap();
    let bone = path(&["rig", "twin"]);
    let mut cache = Vec::new();
    assert_eq!(find_bone(root, &bone, &scene, &mut cache), Some(first));
    let mut cache = vec![None, Some(second)];
    assert_eq!(find_bone(root, &bone, &scene, &mut cache), Some(second));
    // a cached node that bears another name is not used
    let other = scene.spawn_child(root, Some("other".to_string())).unwrap();
    let mut cache = vec![None, Some(other)];
    assert_eq!(find_bone(root, &bone, &scene, &mut cache), Some(first));
    assert_eq!(cache, vec![None, Some(first)]);
}

#[test]
fn ancestor_players_are_found() {
    let (mut scene, root, hip, leg, arm) = rig();
    assert!(verify_no_ancestor_player(scene.parent(leg), &scene));
    assert!(verify_no_ancestor_player(None, &scene));
    scene.set_player(root, true);
    assert!(scene.has_player(root));
    assert!(!verify_no_ancestor_player(scene.parent(leg), &scene));
    assert!(!verify_no_ancestor_player(scene.parent(arm), &scene));
    assert!(verify_no_ancestor_player(scene.parent(root), &scene));
    // the player on the node itself does not count, only those above it
    scene.set_player(root, false);
    scene.set_player(leg, true);
    assert!(verify_no_ancestor_player(scene.parent(leg), &scene));
    scene.set_player(hip, true);
    assert!(!verify_no_ancestor_player(scene.parent(leg), &scene));
    assert!(verify_no_ancestor_player(Some(Entity(99)), &scene));
}

fn library_with(clip: AnimationClip) -> (ClipLibrary, ClipHandle) {
    let mut clips = ClipLibrary::new();
    let handle = clips.add(clip);
    (clips, handle)
}

#[test]
fn clock_advances_by_speed_and_wraps_when_repeating() {
    let mut animation = PlayingAnimation::new(None);
    assert_eq!(animation.speed, UNIT);
    let now = animation.advance(SECOND / 2, 2 * SECOND, false);
    assert_eq!(animation.elapsed, SECOND / 2);
    assert_eq!(now, Instant { at: SECOND / 2, cycle: false });
    // paused: the clock stands still
    let now = animation.advance(SECOND, 2 * SECOND, true);
    assert_eq!(animation.elapsed, SECOND / 2);
    assert_eq!(now, Instant { at: SECOND / 2, cycle: false });
    // not repeating: the time runs past the end
    let now = animation.advance(2 * SECOND, 2 * SECOND, false);
    assert_eq!(now, Instant { at: 5 * SECOND / 2, cycle: false });
    // repeating: folded, and a wrap is seen
    animation.repeat = true;
    let now = animation.advance(SECOND, 2 * SECOND, false);
    assert_eq!(animation.elapsed, 7 * SECOND / 2);
    assert_eq!(now, Instant { at: 3 * SECOND / 2, cycle: false });
    let now = animation.advance(SECOND, 2 * SECOND, false);
    assert_eq!(animation.elapsed, 9 * SECOND / 2);
    assert_eq!(now, Instant { at: SECOND / 2, cycle: true });
    // half speed
    animation.speed = UNIT / 2;
    let now = animation.advance(SECOND, 2 * SECOND, false);
    assert_eq!(animation.elapsed, 5 * SECOND);
    assert_eq!(now, Instant { at: SECOND, cycle: false });
}

#[test]
fn clock_plays_backwards() {
    let mut animation = PlayingAnimation::new(None);
    animation.speed = -UNIT;
    animation.repeat = true;
    animation.elapsed = SECOND / 2;
    let now = animation.advance(SECOND, 2 * SECOND, false);
    assert_eq!(animation.elapsed, -SECOND / 2);
    // -0.5 s is moved up by one duration; the folded time fell, which is no wrap backwards
    assert_eq!(now, Instant { at: 3 * SECOND / 2, cycle: false });
    let mut animation = PlayingAnimation::new(None);
    animation.speed = -UNIT;
    animation.repeat = true;
    animation.elapsed = -3 * SECOND / 2;
    let now = animation.advance(SECOND, 2 * SECOND, false);
    assert_eq!(animation.elapsed, -5 * SECOND / 2);
    assert_eq!(now, Instant { at: 3 * SECOND / 2, cycle: true });
    // without repeat a negative time is moved up once all the same
    let mut animation = PlayingAnimation::new(None);
    animation.speed = -UNIT;
    let now = animation.advance(SECOND, 4 * SECOND, false);
    assert_eq!(now, Instant { at: 3 * SECOND, cycle: false });
}

#[test]
fn clock_of_a_clip_without_extent_stays_at_zero() {
    let mut animation = PlayingAnimation::new(None);
    animation.repeat = true;
    let now = animation.advance(SECOND, 0, false);
    assert_eq!(animation.elapsed, SECOND);
    assert_eq!(now, Instant { at: 0, cycle: false });
}

#[test]
fn clock_saturates() {
    let mut animation = PlayingAnimation::new(None);
    animation.elapsed = i64::MAX - 1;
    animation.advance(SECOND, SECOND, false);
    assert_eq!(animation.elapsed, i64::MAX);
    animation.speed = i64::MIN;
    animation.advance(i64::MAX, SECOND, false);
    assert_eq!(animation.elapsed, i64::MIN);
}

#[test]
fn apply_without_a_clip_does_nothing() {
    let (scene, root, _, _, _) = rig();
    let clips = ClipLibrary::new();
    let mut animation = PlayingAnimation::new(None);
    let applied = apply_animation(UNIT, &mut animation, false, root, SECOND, &clips, &scene);
    assert_eq!(applied.status, Status::NoClip);
    assert!(applied.writes.is_empty());
    assert_eq!(animation.elapsed, 0);
    let mut animation = PlayingAnimation::new(Some(ClipHandle(3)));
    let applied = apply_animation(UNIT, &mut animation, false, root, SECOND, &clips, &scene);
    assert_eq!(applied.status, Status::NoClip);
    assert_eq!(animation.elapsed, 0);
    assert!(animation.path_cache.is_empty());
    assert!(!applied.settles);
}

#[test]
fn apply_samples_every_curve_of_every_bone_found() {
    let (scene, root, hip, leg, arm) = rig();
    let mut clip = AnimationClip::new();
    clip.add_curve_to_path(path(&["rig", "hip", "leg"]), rotation_curve(&[0, 2 * SECOND]));
    clip.add_curve_to_path(path(&["rig", "tail"]), rotation_curve(&[0, 2 * SECOND]));
    clip.add_curve_to_path(path(&["rig", "arm"]), scale_curve(&[SECOND]));
    clip.add_curve_to_path(path(&["rig", "hip", "leg"]), translation_curve(&[SECOND, 2 * SECOND]));
    clip.add_curve_to_path(path(&["rig", "arm"]), translation_curve(&[0, SECOND, 4 * SECOND]));
    let (clips, handle) = library_with(clip);
    let mut animation = PlayingAnimation::new(Some(handle));
    let applied = apply_animation(700_000, &mut animation, false, root, SECOND / 2, &clips, &scene);
    assert_eq!(applied.weight, 700_000);
    assert_eq!(applied.status, Status::Sampled);
    assert_eq!(applied.instant, Instant { at: SECOND / 2, cycle: false });
    assert_eq!(applied.root_bone, None);
    assert!(!applied.settles);
    assert_eq!(applied.unresolved, vec![1]);
    assert_eq!(
        applied.writes,
        vec![
            CurveWrite {
                target: leg,
                bone_id: 0,
                curve: 0,
                channel: Channel::Rotation,
                sample: Sample::Segment { start: 0, end: 1, num: 500_000, den: 2_000_000 },
                destination: Destination::Node,
            },
            CurveWrite {
                target: arm,
                bone_id: 2,
                curve: 0,
                channel: Channel::Scale,
                sample: Sample::Pose,
                destination: Destination::Node,
            },
            CurveWrite {
                target: arm,
                bone_id: 2,
                curve: 1,
                channel: Channel::Translation,
                sample: Sample::Segment { start: 0, end: 1, num: 500_000, den: 1_000_000 },
                destination: Destination::Node,
            },
        ]
    );
    assert_eq!(animation.elapsed, SECOND / 2);
    assert_eq!(
        animation.path_cache,
        vec![
            vec![None, Some(hip), Some(leg)],
            vec![None, None],
            vec![None, Some(arm)],
        ]
    );
}

#[test]
fn apply_below_another_player_writes_nothing() {
    let (mut scene, root, hip, _leg, _arm) = rig();
    scene.set_player(root, true);
    scene.set_player(hip, true);
    let mut clip = AnimationClip::new();
    clip.add_curve_to_path(path(&["hip", "leg"]), rotation_curve(&[0, 2 * SECOND]));
    let (clips, handle) = library_with(clip);
    let mut lower = PlayingAnimation::new(Some(handle));
    let applied = apply_animation(UNIT, &mut lower, false, hip, SECOND, &clips, &scene);
    assert_eq!(applied.status, Status::Conflict);
    assert!(applied.writes.is_empty());
    assert!(applied.unresolved.is_empty());
    assert!(!applied.settles);
    // the clock has moved on all the same, and the caches are there
    assert_eq!(lower.elapsed, SECOND);
    assert_eq!(lower.path_cache, vec![Vec::<Option<Entity>>::new()]);
    // the player at the top is free to write
    let mut clip = AnimationClip::new();
    clip.add_curve_to_path(path(&["rig", "hip"]), rotation_curve(&[0, 2 * SECOND]));
    let (clips, handle) = library_with(clip);
    let mut upper = PlayingAnimation::new(Some(handle));
    let applied = apply_animation(UNIT, &mut upper, false, root, SECOND, &clips, &scene);
    assert_eq!(applied.status, Status::Sampled);
    assert_eq!(applied.writes.len(), 1);
}

#[test]
fn animation_player_lets_only_the_upper_of_two_players_write() {
    let (mut scene, root, hip, leg, _arm) = rig();
    scene.set_player(root, true);
    scene.set_player(hip, true);
    let mut clip = AnimationClip::new();
    clip.add_curve_to_path(path(&["x", "leg"]), rotation_curve(&[0, 2 * SECOND]));
    clip.add_curve_to_path(path(&["x", "hip", "leg"]), rotation_curve(&[0, 2 * SECOND]));
    let (clips, handle) = library_with(clip);
    let mut upper = AnimationPlayer::new();
    upper.start(handle);
    let mut lower = AnimationPlayer::new();
    lower.start(handle);
    let mut players = vec![
        PlayerSlot { root, changed: true, player: upper },
        PlayerSlot { root: hip, changed: true, player: lower },
    ];
    let ticks = animation_player(&mut players, SECOND, &clips, &scene);
    assert_eq!(ticks.len(), 2);
    let upper = ticks[0].as_ref().unwrap();
    assert_eq!(upper.layers[0].status, Status::Sampled);
    assert_eq!(upper.layers[0].writes.len(), 1);
    assert_eq!(upper.layers[0].writes[0].target, leg);
    assert_eq!(upper.layers[0].unresolved, vec![0]);
    let lower = ticks[1].as_ref().unwrap();
    assert_eq!(lower.layers[0].status, Status::Conflict);
    assert!(lower.layers[0].writes.is_empty());
}

#[test]
fn player_controls() {
    let mut player = AnimationPlayer::default();
    assert!(!player.is_paused());
    assert_eq!(player.speed(), UNIT);
    assert_eq!(player.elapsed(), 0);
    assert_eq!(player.animation_clip(), None);
    player.set_speed(2 * UNIT).set_elapsed(5).repeat();
    assert_eq!(player.speed(), 2 * UNIT);
    assert_eq!(player.elapsed(), 5);
    player.pause();
    assert!(player.is_paused());
    player.resume();
    assert!(!player.is_paused());
    player.start(ClipHandle(1));
    assert_eq!(player.animation_clip(), Some(ClipHandle(1)));
    assert_eq!(player.speed(), UNIT);
    assert_eq!(player.elapsed(), 0);
    // playing the clip that plays changes nothing
    player.set_elapsed(9);
    player.play(ClipHandle(1));
    assert_eq!(player.elapsed(), 9);
    player.play_with_transition(ClipHandle(1), SECOND);
    assert_eq!(player.elapsed(), 9);
    assert_eq!(player.transition_count(), 0);
    // another clip starts from the beginning
    player.play(ClipHandle(2));
    assert_eq!(player.animation_clip(), Some(ClipHandle(2)));
    assert_eq!(player.elapsed(), 0);
    // a paused player starts the clip over
    player.set_elapsed(7);
    player.pause();
    player.play(ClipHandle(2));
    assert_eq!(player.elapsed(), 0);
    assert!(player.is_paused());
    player.stop_repeating();
}

#[test]
fn transitions_are_added_and_cut() {
    let mut player = AnimationPlayer::new();
    player.start(ClipHandle(0));
    player.start_with_transition(ClipHandle(1), SECOND / 2);
    assert_eq!(player.animation_clip(), Some(ClipHandle(1)));
    assert_eq!(player.transition_count(), 1);
    assert_eq!(player.transition_weight(0), Some(UNIT));
    player.play_with_transition(ClipHandle(2), SECOND);
    assert_eq!(player.transition_count(), 2);
    assert_eq!(player.transition_weight(1), Some(UNIT));
    assert_eq!(player.transition_weight(2), None);
    // a hard cut drops every fade-out
    player.start(ClipHandle(3));
    assert_eq!(player.transition_count(), 0);
}

#[test]
fn transition_decay_prunes_at_zero() {
    // weight 1.0 falling by 2.0 a second, ticked by 0.3 s
    let mut player = AnimationPlayer::new();
    player.start(ClipHandle(0));
    player.start_with_transition(ClipHandle(1), SECOND / 2);
    update_transitions(&mut player, 300_000);
    assert_eq!(player.transition_weight(0), Some(400_000));
    update_transitions(&mut player, 300_000);
    assert_eq!(player.transition_count(), 0);
    update_transitions(&mut player, 300_000);
    assert_eq!(player.transition_count(), 0);
}

#[test]
fn transition_decay_drops_a_weight_of_exactly_zero() {
    let mut player = AnimationPlayer::new();
    player.start_with_transition(ClipHandle(1), SECOND);
    update_transitions(&mut player, SECOND / 2);
    assert_eq!(player.transition_weight(0), Some(UNIT / 2));
    update_transitions(&mut player, SECOND / 2);
    assert_eq!(player.transition_count(), 0);
}

#[test]
fn transitions_fade_side_by_side_and_keep_their_order() {
    let mut player = AnimationPlayer::new();
    player.start(ClipHandle(0));
    player.start_with_transition(ClipHandle(1), SECOND);
    update_transitions(&mut player, 250_000);
    player.start_with_transition(ClipHandle(2), 2 * SECOND);
    player.start_with_transition(ClipHandle(3), SECOND / 4);
    assert_eq!(player.transition_count(), 3);
    update_transitions(&mut player, 250_000);
    // 0.75 - 0.25, 1.0 - 0.125, 1.0 - 1.0 (dropped)
    assert_eq!(player.transition_count(), 2);
    assert_eq!(player.transition_weight(0), Some(500_000));
    assert_eq!(player.transition_weight(1), Some(875_000));
    update_transitions(&mut player, SECOND / 2);
    assert_eq!(player.transition_count(), 1);
    assert_eq!(player.transition_weight(0), Some(625_000));
}

#[test]
fn transition_without_duration_ends_at_the_first_tick() {
    let mut player = AnimationPlayer::new();
    player.start_with_transition(ClipHandle(1), 0);
    assert_eq!(player.transition_count(), 1);
    update_transitions(&mut player, 1);
    assert_eq!(player.transition_count(), 0);
}

#[test]
fn paused_player_is_left_alone_unless_changed() {
    let (scene, root, _hip, _leg, _arm) = rig();
    let mut clip = AnimationClip::new();
    clip.add_curve_to_path(path(&["rig", "arm"]), rotation_curve(&[0, 2 * SECOND]));
    let (clips, handle) = library_with(clip);
    let mut player = AnimationPlayer::new();
    player.start(handle);
    player.start_with_transition(handle, SECOND);
    player.pause();
    let mut players = vec![PlayerSlot { root, changed: false, player }];
    let ticks = animation_player(&mut players, SECOND / 2, &clips, &scene);
    assert!(ticks[0].is_none());
    assert_eq!(players[0].player.elapsed(), 0);
    assert_eq!(players[0].player.transition_weight(0), Some(UNIT));
    // touched while paused: sampled where it stands, and the fade-out goes on
    players[0].changed = true;
    players[0].player.set_elapsed(SECOND);
    let ticks = animation_player(&mut players, SECOND / 2, &clips, &scene);
    let tick = ticks[0].as_ref().unwrap();
    assert_eq!(players[0].player.elapsed(), SECOND);
    assert_eq!(players[0].player.transition_weight(0), Some(UNIT / 2));
    assert_eq!(tick.layers.len(), 2);
    assert_eq!(tick.layers[0].weight, UNIT);
    assert_eq!(tick.layers[1].weight, UNIT / 2);
    assert_eq!(
        tick.layers[0].writes[0].sample,
        Sample::Segment { start: 0, end: 1, num: 1_000_000, den: 2_000_000 }
    );
    assert_eq!(
        run_animation_player(root, &mut players[0].player, false, SECOND, &clips, &scene).is_none(),
        true
    );
}

#[test]
fn run_animation_player_plays_the_primary_then_the_fading_clips() {
    let (scene, root, _hip, _leg, arm) = rig();
    let mut first = AnimationClip::new();
    first.add_curve_to_path(path(&["rig", "arm"]), rotation_curve(&[0, 4 * SECOND]));
    let mut second = AnimationClip::new();
    second.add_curve_to_path(path(&["rig", "arm"]), translation_curve(&[0, 2 * SECOND]));
    let mut clips = ClipLibrary::new();
    let first = clips.add(first);
    let second = clips.add(second);
    let mut player = AnimationPlayer::new();
    player.start(first);
    let tick = run_animation_player(root, &mut player, true, SECOND, &clips, &scene).unwrap();
    assert_eq!(tick.layers.len(), 1);
    assert!(!tick.applies_root_motion);
    player.start_with_transition(second, SECOND);
    update_transitions(&mut player, SECOND / 4);
    let tick = run_animation_player(root, &mut player, true, SECOND / 4, &clips, &scene).unwrap();
    assert_eq!(tick.layers.len(), 2);
    assert_eq!(tick.layers[0].weight, UNIT);
    assert_eq!(tick.layers[0].writes[0].channel, Channel::Translation);
    assert_eq!(
        tick.layers[0].writes[0].sample,
        Sample::Segment { start: 0, end: 1, num: 250_000, den: 2_000_000 }
    );
    assert_eq!(tick.layers[1].weight, 750_000);
    assert_eq!(tick.layers[1].writes[0].channel, Channel::Rotation);
    assert_eq!(tick.layers[1].writes[0].target, arm);
    assert_eq!(
        tick.layers[1].writes[0].sample,
        Sample::Segment { start: 0, end: 1, num: 1_250_000, den: 4_000_000 }
    );
}

#[test]
fn root_motion_steers_the_root_bone() {
    let (scene, root, hip, _leg, arm) = rig();
    let mut clip = AnimationClip::new();
    clip.add_curve_to_path(path(&["rig", "hip"]), translation_curve(&[0, 2 * SECOND]));
    clip.add_curve_to_path(path(&["rig", "hip"]), rotation_curve(&[0, 2 * SECOND]));
    clip.add_curve_to_path(path(&["rig", "hip"]), scale_curve(&[0, 2 * SECOND]));
    clip.add_curve_to_path(path(&["rig", "hip"]), translation_curve(&[0]));
    clip.add_curve_to_path(path(&["rig", "arm"]), translation_curve(&[0, 2 * SECOND]));
    let (clips, handle) = library_with(clip);
    let mut player = AnimationPlayer::new();
    player.start(handle);
    player.set_root_motion(RootMotionMode::Enabled, path(&["rig", "hip"]));
    let tick = run_animation_player(root, &mut player, true, SECOND, &clips, &scene).unwrap();
    assert!(tick.applies_root_motion);
    let layer = &tick.layers[0];
    assert!(layer.settles);
    assert_eq!(layer.root_bone, Some(hip));
    let destinations: Vec<(Entity, Channel, Destination)> =
        layer.writes.iter().map(|w| (w.target, w.channel, w.destination)).collect();
    assert_eq!(
        destinations,
        vec![
            (
                hip,
                Channel::Translation,
                Destination::RootTranslation { xz_to_root: true, y_to_root: false }
            ),
            (hip, Channel::Rotation, Destination::Node),
            (hip, Channel::Scale, Destination::Node),
            // a pose is never steered away from the node
            (hip, Channel::Translation, Destination::Node),
            (arm, Channel::Translation, Destination::Node),
        ]
    );
    // the host reports where the root bone stands; the first time it is told
    // that the bone stood at the origin
    let since = player.settle_root_motion(0, layer.instant.cycle, Vec3::new(1.0, 0.0, 2.0));
    assert!(matches!(since, Some(RootAnchor::Origin)));
    let since = player.settle_root_motion(0, false, Vec3::new(2.0, 0.0, 2.0));
    match since {
        Some(RootAnchor::At(p)) => assert_eq!(p, Vec3::new(1.0, 0.0, 2.0)),
        _ => panic!("the root bone was settled before"),
    }
    // a wrap yields no movement, and the position is noted all the same
    assert!(player.settle_root_motion(0, true, Vec3::new(9.0, 0.0, 0.0)).is_none());
    match player.settle_root_motion(0, false, Vec3::ZERO) {
        Some(RootAnchor::At(p)) => assert_eq!(p, Vec3::new(9.0, 0.0, 0.0)),
        _ => panic!("the root bone was settled before"),
    }
    // no such layer
    assert!(player.settle_root_motion(1, false, Vec3::ZERO).is_none());
}

#[test]
fn root_motion_locked_or_off_is_not_applied() {
    let (scene, root, _hip, _leg, _arm) = rig();
    let mut clip = AnimationClip::new();
    clip.add_curve_to_path(path(&["rig", "hip"]), translation_curve(&[0, 2 * SECOND]));
    let (clips, handle) = library_with(clip);
    let mut player = AnimationPlayer::new();
    player.start(handle);
    player.set_root_motion(RootMotionMode::Locked, path(&["rig", "nowhere"]));
    let tick = run_animation_player(root, &mut player, true, SECOND, &clips, &scene).unwrap();
    assert!(!tick.applies_root_motion);
    assert!(tick.layers[0].settles);
    assert_eq!(tick.layers[0].root_bone, None);
    assert_eq!(tick.layers[0].writes[0].destination, Destination::Node);
    player.disable_root_motion();
    let tick = run_animation_player(root, &mut player, true, SECOND, &clips, &scene).unwrap();
    assert!(!tick.applies_root_motion);
    assert!(!tick.layers[0].settles);
    assert!(player.settle_root_motion(0, false, Vec3::ZERO).is_none());
    assert_eq!(RootMotionMode::default(), RootMotionMode::Enabled);
}

fn blend_rotation(current: Quat, keyframes: &Keyframes, write: &CurveWrite, weight: i64) -> Quat {
    let Keyframes::Rotation(keyframes) = keyframes else { panic!("a rotation curve") };
    let weight = weight as f32 / UNIT as f32;
    match write.sample {
        Sample::Pose => current.slerp(keyframes[0], weight),
        Sample::Segment { start, end, num, den } => {
            let value = keyframes[start]
                .normalize()
                .slerp(keyframes[end].normalize(), num as f32 / den as f32);
            current.slerp(value, weight)
        }
        _ => current,
    }
}

#[test]
fn end_to_end_rotation() {
    let mut scene = Scene::new();
    let root = scene.spawn(Some("root".to_string()));
    let bone = scene.spawn_child(root, Some("bone".to_string())).unwrap();
    let quarter_turn = Quat::from_rotation_y(std::f32::consts::FRAC_PI_2);
    let mut clip = AnimationClip::new();
    clip.add_curve_to_path(
        path(&["root", "bone"]),
        VariableCurve {
            keyframe_timestamps: vec![0, SECOND],
            keyframes: Keyframes::Rotation(vec![Quat::IDENTITY, quarter_turn]),
        },
    );
    let (clips, handle) = library_with(clip);
    let mut player = AnimationPlayer::new();
    player.start(handle);
    let mut rotation = Quat::IDENTITY;

    let tick = run_animation_player(root, &mut player, true, SECOND / 2, &clips, &scene).unwrap();
    let layer = &tick.layers[0];
    assert_eq!(layer.writes.len(), 1);
    assert_eq!(layer.writes[0].target, bone);
    assert_eq!(
        layer.writes[0].sample,
        Sample::Segment { start: 0, end: 1, num: 500_000, den: 1_000_000 }
    );
    let curve = &clips.get(Some(handle)).unwrap().curves()[0][0];
    rotation = blend_rotation(rotation, &curve.keyframes, &layer.writes[0], layer.weight);
    let eighth_turn = Quat::from_rotation_y(std::f32::consts::FRAC_PI_4);
    assert!(rotation.abs_diff_eq(eighth_turn, 1e-6));

    // the second tick lands on the last timestamp: the curve is finished
    let tick = run_animation_player(root, &mut player, true, SECOND / 2, &clips, &scene).unwrap();
    assert_eq!(player.elapsed(), SECOND);
    assert!(tick.layers[0].writes.is_empty());
    let tick = run_animation_player(root, &mut player, true, SECOND / 2, &clips, &scene).unwrap();
    assert_eq!(player.elapsed(), 3 * SECOND / 2);
    assert!(tick.layers[0].writes.is_empty());
    assert!(rotation.abs_diff_eq(eighth_turn, 1e-6));
}

#[test]
fn single_keyframe_blends_by_weight_alone() {
    let mut scene = Scene::new();
    let root = scene.spawn(Some("root".to_string()));
    let quarter_turn = Quat::from_rotation_y(std::f32::consts::FRAC_PI_2);
    let mut clip = AnimationClip::new();
    clip.add_curve_to_path(
        path(&["root"]),
        VariableCurve {
            keyframe_timestamps: vec![5 * SECOND],
            keyframes: Keyframes::Rotation(vec![quarter_turn]),
        },
    );
    let (clips, handle) = library_with(clip);
    let curve = clips.get(Some(handle)).unwrap().curves()[0][0].clone();
    for elapsed in [-3 * SECOND, 0, 5 * SECOND, 9 * SECOND] {
        let mut animation = PlayingAnimation::new(Some(handle));
        animation.elapsed = elapsed;
        let applied = apply_animation(UNIT / 2, &mut animation, true, root, 0, &clips, &scene);
        assert_eq!(applied.writes.len(), 1);
        assert_eq!(applied.writes[0].sample, Sample::Pose);
        assert_eq!(applied.writes[0].target, root);
        let blended =
            blend_rotation(Quat::IDENTITY, &curve.keyframes, &applied.writes[0], applied.weight);
        assert!(blended.abs_diff_eq(Quat::IDENTITY.slerp(quarter_turn, 0.5), 1e-6));
    }
}

#[test]
fn root_motion_deltas_add_up() {
    let (scene, root, hip, _leg, _arm) = rig();
    let mut clip = AnimationClip::new();
    let positions = vec![Vec3::ZERO, Vec3::new(4.0, 0.0, 8.0)];
    clip.add_curve_to_path(
        path(&["rig", "hip"]),
        VariableCurve {
            keyframe_timestamps: vec![0, SECOND],
            keyframes: Keyframes::Translation(positions.clone()),
        },
    );
    let (clips, handle) = library_with(clip);
    let mut player = AnimationPlayer::new();
    player.start(handle);
    player.set_root_motion(RootMotionMode::Enabled, path(&["rig", "hip"]));
    let mut sum = Vec3::ZERO;
    let mut last = Vec3::ZERO;
    for _ in 0..3 {
        let tick = run_animation_player(root, &mut player, true, SECOND / 4, &clips, &scene).unwrap();
        let layer = &tick.layers[0];
        assert_eq!(layer.writes.len(), 1);
        let write = &layer.writes[0];
        assert_eq!(write.target, hip);
        assert_eq!(
            write.destination,
            Destination::RootTranslation { xz_to_root: true, y_to_root: false }
        );
        let Sample::Segment { start, end, num, den } = write.sample else { panic!("a segment") };
        let position = positions[start].lerp(positions[end], num as f32 / den as f32);
        let moved = match player.settle_root_motion(0, layer.instant.cycle, position) {
            Some(RootAnchor::Origin) => position,
            Some(RootAnchor::At(before)) => position - before,
            None => Vec3::ZERO,
        };
        sum += moved;
        last = position;
    }
    assert_eq!(last, Vec3::new(3.0, 0.0, 6.0));
    assert!(sum.abs_diff_eq(last - positions[0], 1e-6));
}
