//! Animation clips: keyframe curves grouped by bone, and the paths that name
//! the bones.

use bevy_math::{Quat, Vec3};
use vstd::prelude::*;

verus! {

/// `bevy_math::Quat`, a rotation. The engine stores and hands out such
/// values and never looks inside one.
#[verifier::external_type_specification]
#[verifier::external_body]
pub struct ExQuat(Quat);

/// `bevy_math::Vec3`, a translation or a scale. The engine stores and hands
/// out such values and never looks inside one.
#[verifier::external_type_specification]
#[verifier::external_body]
pub struct ExVec3(Vec3);

/// The animated channel of a node's transform.
#[derive(Clone, Copy, Debug, PartialEq, Eq, Structural, Hash)]
pub enum Channel {
    Rotation,
    Translation,
    Scale,
}

/// List of keyframes for one channel of a transform.
#[derive(Clone, Debug)]
pub enum Keyframes {
    /// Keyframes for rotation.
    Rotation(Vec<Quat>),
    /// Keyframes for translation.
    Translation(Vec<Vec3>),
    /// Keyframes for scale.
    Scale(Vec<Vec3>),
}

impl Keyframes {
    /// Number of keyframes.
    pub open spec fn spec_len(&self) -> nat {
        match self {
            Keyframes::Rotation(v) => v@.len(),
            Keyframes::Translation(v) => v@.len(),
            Keyframes::Scale(v) => v@.len(),
        }
    }

    /// The channel that these keyframes drive.
    pub open spec fn spec_channel(&self) -> Channel {
        match self {
            Keyframes::Rotation(_) => Channel::Rotation,
            Keyframes::Translation(_) => Channel::Translation,
            Keyframes::Scale(_) => Channel::Scale,
        }
    }

    /// Number of keyframes.
    pub fn len(&self) -> (n: usize)
        ensures
            n == self.spec_len(),
    {
        match self {
            Keyframes::Rotation(v) => v.len(),
            Keyframes::Translation(v) => v.len(),
            Keyframes::Scale(v) => v.len(),
        }
    }

    /// The channel that these keyframes drive.
    #[verifier::when_used_as_spec(spec_channel)]
    pub fn channel(&self) -> (c: Channel)
        ensures
            c == self.spec_channel(),
    {
        match self {
            Keyframes::Rotation(_) => Channel::Rotation,
            Keyframes::Translation(_) => Channel::Translation,
            Keyframes::Scale(_) => Channel::Scale,
        }
    }
}

/// Whether `ts` never decreases.
pub open spec fn non_decreasing(ts: Seq<i64>) -> bool {
    forall|i: int, j: int| 0 <= i <= j < ts.len() ==> ts[i] <= ts[j]
}

/// Describes how one channel of a transform is animated.
#[derive(Clone, Debug)]
pub struct VariableCurve {
    /// Timestamp of each keyframe, in ticks.
    pub keyframe_timestamps: Vec<i64>,
    /// List of the keyframes.
    pub keyframes: Keyframes,
}

impl VariableCurve {
    /// A curve has one timestamp per keyframe, and its timestamps never
    /// decrease.
    pub open spec fn well_formed(&self) -> bool {
        &&& self.keyframe_timestamps@.len() == self.keyframes.spec_len()
        &&& non_decreasing(self.keyframe_timestamps@)
    }

    /// The last timestamp, or zero for a curve without keyframes.
    pub open spec fn last_timestamp(&self) -> int {
        if self.keyframe_timestamps@.len() > 0 {
            self.keyframe_timestamps@.last() as int
        } else {
            0
        }
    }

    /// Tests [`Self::well_formed`].
    pub fn is_well_formed(&self) -> (ok: bool)
        ensures
            ok == self.well_formed(),
    {
        let n = self.keyframe_timestamps.len();
        if n != self.keyframes.len() {
            return false;
        }
        let mut k: usize = 1;
        while k < n
            invariant
                n == self.keyframe_timestamps@.len(),
                1 <= k,
                forall|i: int, j: int|
                    0 <= i <= j < k && j < n ==> self.keyframe_timestamps@[i]
                        <= self.keyframe_timestamps@[j],
            decreases n - k,
        {
            if self.keyframe_timestamps[k - 1] > self.keyframe_timestamps[k] {
                return false;
            }
            k += 1;
        }
        true
    }
}

/// Path to a node, by the names of the nodes on the way. The first part names
/// the animation root itself.
#[derive(Clone, Debug, Hash, PartialEq, Eq, Default)]
pub struct EntityPath {
    /// Parts of the path.
    pub parts: Vec<String>,
}

impl View for EntityPath {
    type V = Seq<Seq<char>>;

    open spec fn view(&self) -> Seq<Seq<char>> {
        Seq::new(self.parts@.len(), |i: int| self.parts@[i]@)
    }
}

impl EntityPath {
    /// Whether both paths have the same parts in the same order.
    pub fn same_as(&self, other: &EntityPath) -> (same: bool)
        ensures
            same == (self@ == other@),
    {
        let n = self.parts.len();
        if n != other.parts.len() {
            assert(self@.len() != other@.len());
            return false;
        }
        let mut i: usize = 0;
        while i < n
            invariant
                n == self.parts@.len(),
                n == other.parts@.len(),
                i <= n,
                forall|k: int| 0 <= k < i ==> self@[k] == other@[k],
            decreases n - i,
        {
            if !(self.parts[i] == other.parts[i]) {
                assert(self@[i as int] != other@[i as int]);
                return false;
            }
            i += 1;
        }
        assert(self@ =~= other@);
        true
    }
}

/// The curves of each row of `curves`, as sequences.
pub open spec fn rows(curves: Seq<Vec<VariableCurve>>) -> Seq<Seq<VariableCurve>> {
    Seq::new(curves.len(), |b: int| curves[b]@)
}

/// The parts of each path of `paths`.
pub open spec fn path_views(paths: Seq<EntityPath>) -> Seq<Seq<Seq<char>>> {
    Seq::new(paths.len(), |b: int| paths[b]@)
}

/// `d` is the largest last timestamp among `bones`, and zero where no curve
/// ends later than that.
pub open spec fn is_longest_end(d: int, bones: Seq<Seq<VariableCurve>>) -> bool {
    &&& d >= 0
    &&& forall|b: int, c: int|
        0 <= b < bones.len() && 0 <= c < bones[b].len() ==> (#[trigger] bones[b][c]).last_timestamp()
            <= d
    &&& (d == 0 || exists|b: int, c: int|
        0 <= b < bones.len() && 0 <= c < bones[b].len() && (#[trigger] bones[b][c]).last_timestamp()
            == d)
}

/// A set of curves, each list of them bound to the path of the node it moves.
#[derive(Clone, Debug)]
pub struct AnimationClip {
    curves: Vec<Vec<VariableCurve>>,
    paths: Vec<EntityPath>,
    duration: i64,
}

impl AnimationClip {
    /// The curves of each bone, indexed by bone id.
    pub closed spec fn bones(&self) -> Seq<Seq<VariableCurve>> {
        rows(self.curves@)
    }

    /// The path of each bone, indexed by bone id.
    pub closed spec fn bone_paths(&self) -> Seq<Seq<Seq<char>>> {
        path_views(self.paths@)
    }

    /// Duration of the clip, in ticks.
    pub closed spec fn spec_duration(&self) -> int {
        self.duration as int
    }

    /// Every bone has one path, no path names two bones, every curve is well
    /// formed, and the duration is that of the longest curve.
    pub open spec fn wf(&self) -> bool {
        &&& self.bone_paths().len() == self.bones().len()
        &&& forall|i: int, j: int|
            0 <= i < j < self.bone_paths().len() ==> self.bone_paths()[i] != self.bone_paths()[j]
        &&& forall|b: int, c: int|
            0 <= b < self.bones().len() && 0 <= c < self.bones()[b].len() ==> (
            #[trigger] self.bones()[b][c]).well_formed()
        &&& is_longest_end(self.spec_duration(), self.bones())
    }

    /// The bone id that `path` names, if it names one.
    pub open spec fn bone_id_of(&self, path: Seq<Seq<char>>) -> Option<usize> {
        if exists|b: int| 0 <= b < self.bone_paths().len() && self.bone_paths()[b] == path {
            Some(
                (choose|b: int| 0 <= b < self.bone_paths().len() && self.bone_paths()[b] == path)
                    as usize,
            )
        } else {
            None
        }
    }

    /// Whether this clip is `before` with `curve` added under `path`: the
    /// duration has grown to the end of the curve if that is later, and the
    /// curve is the last of the bone that the path names; a path that
    /// named no bone names a new last bone, which has this one curve.
    pub open spec fn is_result_of_adding(
        &self,
        before: AnimationClip,
        path: Seq<Seq<char>>,
        curve: VariableCurve,
    ) -> bool {
        &&& self.spec_duration() == if curve.last_timestamp() > before.spec_duration() {
            curve.last_timestamp()
        } else {
            before.spec_duration()
        }
        &&& match before.bone_id_of(path) {
            Some(b) => {
                &&& self.bone_paths() == before.bone_paths()
                &&& self.bones() == before.bones().update(
                    b as int,
                    before.bones()[b as int].push(curve),
                )
            },
            None => {
                &&& self.bone_paths() == before.bone_paths().push(path)
                &&& self.bones() == before.bones().push(seq![curve])
            },
        }
    }

    /// The duration of a clip is the latest end of its curves: no curve
    /// ends later, and unless the duration is zero some curve ends then. A
    /// clip without curves has the duration zero.
    pub proof fn lemma_duration_is_latest_end(&self)
        requires
            self.wf(),
        ensures
            self.spec_duration() >= 0,
            forall|b: int, c: int|
                0 <= b < self.bones().len() && 0 <= c < self.bones()[b].len() ==> (
                #[trigger] self.bones()[b][c]).last_timestamp() <= self.spec_duration(),
            self.spec_duration() == 0 || exists|b: int, c: int|
                0 <= b < self.bones().len() && 0 <= c < self.bones()[b].len() && (
                #[trigger] self.bones()[b][c]).last_timestamp() == self.spec_duration(),
            (forall|b: int| 0 <= b < self.bones().len() ==> (#[trigger] self.bones()[b]).len() == 0)
                ==> self.spec_duration() == 0,
    {
    }

    /// A path names at most one bone: the bone id of a path is the one
    /// index at which the path stands.
    pub proof fn lemma_bone_id_is_unique(&self, path: Seq<Seq<char>>, b: int)
        requires
            self.wf(),
            0 <= b < self.bone_paths().len(),
            self.bone_paths()[b] == path,
        ensures
            self.bone_id_of(path) == Some(b as usize),
    {
        let w = choose|w: int| 0 <= w < self.bone_paths().len() && self.bone_paths()[w] == path;
        if w < b {
            assert(self.bone_paths()[w] != self.bone_paths()[b]);
        }
        if b < w {
            assert(self.bone_paths()[b] != self.bone_paths()[w]);
        }
    }

    /// Adding two curves under one path leaves them, in that order, at the
    /// end of the curves of one bone: the second addition finds the bone of
    /// the first and makes no new one.
    pub proof fn lemma_same_path_same_bone(
        c0: AnimationClip,
        c1: AnimationClip,
        c2: AnimationClip,
        path: Seq<Seq<char>>,
        first: VariableCurve,
        second: VariableCurve,
    )
        requires
            c0.wf(),
            c1.wf(),
            c1.is_result_of_adding(c0, path, first),
            c2.is_result_of_adding(c1, path, second),
        ensures
            c1.bone_id_of(path).is_some(),
            c2.bone_id_of(path) == c1.bone_id_of(path),
            c2.bone_paths() == c1.bone_paths(),
            c2.bones().len() == c1.bones().len(),
            ({
                let b = c1.bone_id_of(path).unwrap() as int;
                &&& 0 <= b < c1.bones().len()
                &&& c1.bones()[b].len() > 0
                &&& c1.bones()[b].last() == first
                &&& c2.bones()[b] == c1.bones()[b].push(second)
                &&& forall|x: int| 0 <= x < c1.bones().len() && x != b ==> c2.bones()[x] == c1.bones()[x]
            }),
    {
        assert(c1.bone_paths().len() == c1.paths.len());
        match c0.bone_id_of(path) {
            Some(b) => {
                let w = choose|w: int|
                    0 <= w < c0.bone_paths().len() && c0.bone_paths()[w] == path;
                c1.lemma_bone_id_is_unique(path, w);
            },
            None => {
                let b = c0.bone_paths().len() as int;
                assert(c1.bone_paths()[b] == path);
                c1.lemma_bone_id_is_unique(path, b);
            },
        }
        assert(c2.bone_paths() == c1.bone_paths());
        let b = c1.bone_id_of(path).unwrap() as int;
        assert(c2.bone_id_of(path) == c1.bone_id_of(path));
    }

    /// A clip without bones, of duration zero.
    pub fn new() -> (clip: Self)
        ensures
            clip.wf(),
            clip.bones() == Seq::<Seq<VariableCurve>>::empty(),
            clip.bone_paths() == Seq::<Seq<Seq<char>>>::empty(),
            clip.spec_duration() == 0,
    {
        let clip = AnimationClip { curves: Vec::new(), paths: Vec::new(), duration: 0 };
        assert(clip.bones() =~= Seq::<Seq<VariableCurve>>::empty());
        assert(clip.bone_paths() =~= Seq::<Seq<Seq<char>>>::empty());
        clip
    }

    /// The curves of each bone, indexed by bone id.
    #[inline]
    pub fn curves(&self) -> (all: &Vec<Vec<VariableCurve>>)
        ensures
            rows(all@) == self.bones(),
    {
        &self.curves
    }

    /// Number of bones.
    pub fn bone_count(&self) -> (n: usize)
        requires
            self.wf(),
        ensures
            n == self.bones().len(),
            n == self.bone_paths().len(),
    {
        self.curves.len()
    }

    /// Gets the curves of a bone.
    ///
    /// Returns `None` if no bone has this id.
    #[inline]
    pub fn get_curves(&self, bone_id: usize) -> (found: Option<&Vec<VariableCurve>>)
        ensures
            bone_id < self.bones().len() ==> found.is_some() && found.unwrap()@
                == self.bones()[bone_id as int],
            bone_id >= self.bones().len() ==> found.is_none(),
    {
        if bone_id < self.curves.len() {
            Some(&self.curves[bone_id])
        } else {
            None
        }
    }

    /// Gets the path of a bone.
    ///
    /// Returns `None` if no bone has this id.
    pub fn get_path(&self, bone_id: usize) -> (found: Option<&EntityPath>)
        ensures
            bone_id < self.bone_paths().len() ==> found.is_some() && found.unwrap()@
                == self.bone_paths()[bone_id as int],
            bone_id >= self.bone_paths().len() ==> found.is_none(),
    {
        if bone_id < self.paths.len() {
            Some(&self.paths[bone_id])
        } else {
            None
        }
    }

    /// Finds the bone id that `path` names.
    pub fn bone_id(&self, path: &EntityPath) -> (found: Option<usize>)
        requires
            self.wf(),
        ensures
            found == self.bone_id_of(path@),
            found matches Some(b) ==> b < self.bone_paths().len() && self.bone_paths()[b as int]
                == path@,
            found.is_none() ==> forall|b: int|
                0 <= b < self.bone_paths().len() ==> self.bone_paths()[b] != path@,
    {
        let n = self.paths.len();
        let mut b: usize = 0;
        while b < n
            invariant
                self.wf(),
                n == self.paths@.len(),
                b <= n,
                forall|k: int| 0 <= k < b ==> self.bone_paths()[k] != path@,
            decreases n - b,
        {
            if self.paths[b].same_as(path) {
                proof {
                    assert(self.bone_paths()[b as int] == path@);
                    let w = choose|w: int|
                        0 <= w < self.bone_paths().len() && self.bone_paths()[w] == path@;
                    if w < b {
                        assert(self.bone_paths()[w] != self.bone_paths()[b as int]);
                    }
                    if b < w {
                        assert(self.bone_paths()[b as int] != self.bone_paths()[w]);
                    }
                }
                return Some(b);
            }
            b += 1;
        }
        None
    }

    /// Gets the curves by the path of their bone.
    ///
    /// Returns `None` if the path names no bone.
    #[inline]
    pub fn get_curves_by_path(&self, path: &EntityPath) -> (found: Option<&Vec<VariableCurve>>)
        requires
            self.wf(),
        ensures
            match self.bone_id_of(path@) {
                Some(b) => found.is_some() && found.unwrap()@ == self.bones()[b as int],
                None => found.is_none(),
            },
    {
        match self.bone_id(path) {
            Some(b) => Some(&self.curves[b]),
            None => None,
        }
    }

    /// Duration of the clip, in ticks.
    #[inline]
    pub fn duration(&self) -> (d: i64)
        ensures
            d == self.spec_duration(),
    {
        self.duration
    }

    /// Adds a curve to the bone that `path` names. A path seen for the first
    /// time gets the next bone id.
    pub fn add_curve_to_path(&mut self, path: EntityPath, curve: VariableCurve)
        requires
            old(self).wf(),
            curve.well_formed(),
        ensures
            final(self).wf(),
            final(self).is_result_of_adding(*old(self), path@, curve),
    {
        let n = curve.keyframe_timestamps.len();
        let end: i64 = if n > 0 {
            curve.keyframe_timestamps[n - 1]
        } else {
            0
        };
        let ghost before = *self;
        let bone = self.bone_id(&path);
        if end > self.duration {
            self.duration = end;
        }
        match bone {
            Some(b) => {
                self.curves[b].push(curve);
                assert(self.bones() =~= before.bones().update(
                    b as int,
                    before.bones()[b as int].push(curve),
                ));
                assert(self.bone_paths() =~= before.bone_paths());
                assert forall|x: int, c: int|
                    0 <= x < self.bones().len() && 0 <= c < self.bones()[x].len() implies (
                #[trigger] self.bones()[x][c]).well_formed() && self.bones()[x][c].last_timestamp()
                    <= self.spec_duration() by {
                    if x == b && c == before.bones()[b as int].len() {
                    } else {
                        assert(self.bones()[x][c] == before.bones()[x][c]);
                    }
                }
                proof {
                    if self.spec_duration() != 0 {
                        if end > before.spec_duration() {
                            assert(self.bones()[b as int][before.bones()[b as int].len() as int]
                                == curve);
                        } else {
                            let (wb, wc) = choose|wb: int, wc: int|
                                0 <= wb < before.bones().len() && 0 <= wc
                                    < before.bones()[wb].len() && (
                                #[trigger] before.bones()[wb][wc]).last_timestamp()
                                    == before.spec_duration();
                            assert(self.bones()[wb][wc] == before.bones()[wb][wc]);
                        }
                    }
                }
            },
            None => {
                let mut row: Vec<VariableCurve> = Vec::new();
                row.push(curve);
                self.curves.push(row);
                self.paths.push(path);
                assert(row@ =~= seq![curve]);
                assert(self.bones() =~= before.bones().push(seq![curve]));
                assert(self.bone_paths() =~= before.bone_paths().push(path@));
                assert forall|x: int, c: int|
                    0 <= x < self.bones().len() && 0 <= c < self.bones()[x].len() implies (
                #[trigger] self.bones()[x][c]).well_formed() && self.bones()[x][c].last_timestamp()
                    <= self.spec_duration() by {
                    if x < before.bones().len() {
                        assert(self.bones()[x][c] == before.bones()[x][c]);
                    }
                }
                proof {
                    if self.spec_duration() != 0 {
                        if end > before.spec_duration() {
                            assert(self.bones()[before.bones().len() as int][0] == curve);
                        } else {
                            let (wb, wc) = choose|wb: int, wc: int|
                                0 <= wb < before.bones().len() && 0 <= wc
                                    < before.bones()[wb].len() && (
                                #[trigger] before.bones()[wb][wc]).last_timestamp()
                                    == before.spec_duration();
                            assert(self.bones()[wb][wc] == before.bones()[wb][wc]);
                        }
                    }
                }
            },
        }
    }
}

/// Names a clip of a [`ClipLibrary`].
#[derive(Clone, Copy, Debug, PartialEq, Eq, Structural, Hash)]
pub struct ClipHandle(pub usize);

/// The clips that players can play, each under its handle.
#[derive(Clone, Debug)]
pub struct ClipLibrary {
    clips: Vec<AnimationClip>,
}

impl ClipLibrary {
    /// The clips, each at the index that its handle holds.
    pub closed spec fn clips(&self) -> Seq<AnimationClip> {
        self.clips@
    }

    /// Every clip is well formed.
    pub open spec fn wf(&self) -> bool {
        forall|i: int| 0 <= i < self.clips().len() ==> (#[trigger] self.clips()[i]).wf()
    }

    /// The clip that `handle` names, if it names one.
    pub open spec fn clip_of(&self, handle: Option<ClipHandle>) -> Option<AnimationClip> {
        match handle {
            Some(h) => if h.0 < self.clips().len() {
                Some(self.clips()[h.0 as int])
            } else {
                None
            },
            None => None,
        }
    }

    /// A library without clips.
    pub fn new() -> (library: Self)
        ensures
            library.wf(),
            library.clips() == Seq::<AnimationClip>::empty(),
    {
        ClipLibrary { clips: Vec::new() }
    }

    /// Takes a clip in, and returns the handle that names it from now on.
    pub fn add(&mut self, clip: AnimationClip) -> (handle: ClipHandle)
        requires
            old(self).wf(),
            clip.wf(),
        ensures
            final(self).wf(),
            final(self).clips() == old(self).clips().push(clip),
            handle.0 == old(self).clips().len(),
    {
        let handle = ClipHandle(self.clips.len());
        self.clips.push(clip);
        assert forall|i: int| 0 <= i < self.clips().len() implies (#[trigger] self.clips()[i]).wf() by {
            if i < old(self).clips().len() {
                assert(self.clips()[i] == old(self).clips()[i]);
            }
        }
        handle
    }

    /// The clip that `handle` names, if it names one.
    pub fn get(&self, handle: Option<ClipHandle>) -> (clip: Option<&AnimationClip>)
        ensures
            match clip {
                Some(c) => self.clip_of(handle) == Some(*c),
                None => self.clip_of(handle).is_none(),
            },
    {
        match handle {
            Some(h) => if h.0 < self.clips.len() {
                Some(&self.clips[h.0])
            } else {
                None
            },
            None => None,
        }
    }
}

} // verus!
