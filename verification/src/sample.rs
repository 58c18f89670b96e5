//! Sampling a curve: which keyframes are blended at an instant, and by which
//! factor.

use crate::clip::non_decreasing;
use vstd::prelude::*;

verus! {

/// What a curve contributes at one instant.
#[derive(Clone, Copy, Debug, PartialEq, Eq, Structural)]
pub enum Sample {
    /// The curve has no keyframe: nothing is written.
    Empty,
    /// The curve has not started yet: nothing is written.
    NotStarted,
    /// The curve is finished: nothing is written.
    Finished,
    /// The curve has a single keyframe, which is the value at every instant.
    Pose,
    /// The value lies between the keyframes `start` and `end`, the fraction
    /// `num / den` of the way from the first to the second.
    Segment { start: usize, end: usize, num: i128, den: i128 },
}

/// Number of timestamps that are not after `at`.
pub open spec fn reached(ts: Seq<i64>, at: int) -> nat
    decreases ts.len(),
{
    if ts.len() == 0 {
        0
    } else {
        reached(ts.drop_last(), at) + if ts.last() <= at {
            1nat
        } else {
            0nat
        }
    }
}

/// The segment that leads from the last keyframe back to the first.
pub open spec fn wrap_segment(ts: Seq<i64>, at: int) -> Sample {
    Sample::Segment {
        start: (ts.len() - 1) as usize,
        end: 0,
        num: at as i128,
        den: ts[0] as i128,
    }
}

/// What a curve with the timestamps `ts` contributes at the instant `at`.
///
/// A single keyframe is a pose. Otherwise, with `k` the number of timestamps
/// not after `at`: all of them reached and the last one hit exactly, the
/// curve is finished; all of them passed, it is finished unless it repeats,
/// and then wraps; none reached, it has not started unless it repeats, and
/// then wraps; else the value lies between the keyframes `k - 1` and `k`.
pub open spec fn sample_at(ts: Seq<i64>, at: int, repeat: bool) -> Sample {
    let n = ts.len() as int;
    let k = reached(ts, at) as int;
    if n == 0 {
        Sample::Empty
    } else if n == 1 {
        Sample::Pose
    } else if k == n {
        if ts[n - 1] == at || !repeat {
            Sample::Finished
        } else {
            wrap_segment(ts, at)
        }
    } else if k == 0 {
        if repeat {
            wrap_segment(ts, at)
        } else {
            Sample::NotStarted
        }
    } else {
        Sample::Segment {
            start: (k - 1) as usize,
            end: k as usize,
            num: (at - ts[k - 1]) as i128,
            den: (ts[k] - ts[k - 1]) as i128,
        }
    }
}

/// In timestamps that never decrease, the place where `at` is first
/// exceeded is the number of timestamps not after `at`.
pub proof fn lemma_reached_is_partition_point(ts: Seq<i64>, at: int, k: int)
    requires
        0 <= k <= ts.len(),
        forall|j: int| 0 <= j < k ==> ts[j] <= at,
        forall|j: int| k <= j < ts.len() ==> ts[j] > at,
    ensures
        reached(ts, at) == k,
    decreases ts.len(),
{
    if ts.len() > 0 {
        let front = ts.drop_last();
        if k == ts.len() {
            lemma_reached_is_partition_point(front, at, k - 1);
        } else {
            lemma_reached_is_partition_point(front, at, k);
        }
    }
}

/// The number of timestamps not after `at` is at most their number, and in
/// timestamps that never decrease exactly those before it are not after `at`.
pub proof fn lemma_reached_splits(ts: Seq<i64>, at: int)
    requires
        non_decreasing(ts),
    ensures
        reached(ts, at) <= ts.len(),
        forall|j: int| 0 <= j < reached(ts, at) ==> ts[j] <= at,
        forall|j: int| reached(ts, at) <= j < ts.len() ==> ts[j] > at,
    decreases ts.len(),
{
    if ts.len() > 0 {
        let front = ts.drop_last();
        assert(non_decreasing(front)) by {
            assert forall|i: int, j: int| 0 <= i <= j < front.len() implies front[i] <= front[j] by {
                assert(ts[i] <= ts[j]);
            }
        }
        lemma_reached_splits(front, at);
        let k = reached(front, at);
        if ts.last() <= at {
            assert forall|j: int| 0 <= j < ts.len() implies ts[j] <= at by {
                assert(ts[j] <= ts[ts.len() - 1]);
            }
            lemma_reached_is_partition_point(front, at, front.len() as int);
        } else {
            assert forall|j: int| 0 <= j < k implies ts[j] <= at by {
                assert(front[j] == ts[j]);
            }
            assert forall|j: int| k <= j < ts.len() implies ts[j] > at by {
                if j < front.len() {
                    assert(front[j] == ts[j]);
                }
            }
        }
    }
}

/// A curve with a single keyframe is a pose at every instant, repeating
/// or not.
pub proof fn lemma_single_keyframe_is_a_pose(ts: Seq<i64>, at: int, repeat: bool)
    requires
        ts.len() == 1,
    ensures
        sample_at(ts, at, repeat) == Sample::Pose,
{
}

/// A curve of several keyframes that does not repeat writes nothing before
/// its first timestamp, and nothing from its last timestamp on.
pub proof fn lemma_outside_without_repeat(ts: Seq<i64>, at: int)
    requires
        ts.len() >= 2,
        non_decreasing(ts),
    ensures
        at < ts[0] ==> sample_at(ts, at, false) == Sample::NotStarted,
        at >= ts[ts.len() - 1] ==> sample_at(ts, at, false) == Sample::Finished,
{
    lemma_reached_splits(ts, at);
    let k = reached(ts, at);
    if at < ts[0] {
        if k > 0 {
            assert(ts[0] <= at);
        }
    }
    if at >= ts[ts.len() - 1] {
        if k < ts.len() {
            assert(ts[ts.len() - 1] > at);
        }
    }
}

/// A repeating curve of several keyframes, sampled past its last
/// timestamp, wraps: the value lies between the last keyframe and the
/// first, at the fraction `at / ts[0]`.
pub proof fn lemma_wraps_past_the_end(ts: Seq<i64>, at: int)
    requires
        ts.len() >= 2,
        non_decreasing(ts),
        at > ts[ts.len() - 1],
    ensures
        sample_at(ts, at, true) == (Sample::Segment {
            start: (ts.len() - 1) as usize,
            end: 0,
            num: at as i128,
            den: ts[0] as i128,
        }),
{
    lemma_reached_splits(ts, at);
    if reached(ts, at) < ts.len() {
        assert(ts[ts.len() - 1] > at);
    }
}

/// Between two timestamps, the value lies between their keyframes, at a
/// fraction that is at least zero and less than one.
pub proof fn lemma_inside_a_segment(ts: Seq<i64>, at: int, repeat: bool, i: int)
    requires
        non_decreasing(ts),
        0 <= i,
        i + 1 < ts.len(),
        ts[i] <= at < ts[i + 1],
    ensures
        sample_at(ts, at, repeat) == (Sample::Segment {
            start: i as usize,
            end: (i + 1) as usize,
            num: (at - ts[i]) as i128,
            den: (ts[i + 1] - ts[i]) as i128,
        }),
        0 <= at - ts[i] < ts[i + 1] - ts[i],
{
    assert forall|j: int| 0 <= j < i + 1 implies ts[j] <= at by {
        assert(ts[j] <= ts[i]);
    }
    assert forall|j: int| i + 1 <= j < ts.len() implies ts[j] > at by {
        assert(ts[i + 1] <= ts[j]);
    }
    lemma_reached_is_partition_point(ts, at, i + 1);
}

/// What a curve with the timestamps `timestamps` contributes at the
/// instant `at`.
pub fn sample(timestamps: &Vec<i64>, at: i64, repeat: bool) -> (s: Sample)
    requires
        non_decreasing(timestamps@),
    ensures
        s == sample_at(timestamps@, at as int, repeat),
{
    let n = timestamps.len();
    if n == 0 {
        return Sample::Empty;
    }
    if n == 1 {
        return Sample::Pose;
    }
    let mut lo: usize = 0;
    let mut hi: usize = n;
    while lo < hi
        invariant
            n == timestamps@.len(),
            non_decreasing(timestamps@),
            lo <= hi <= n,
            forall|j: int| 0 <= j < lo ==> timestamps@[j] <= at,
            forall|j: int| hi <= j < n ==> timestamps@[j] > at,
        decreases hi - lo,
    {
        let mid = lo + (hi - lo) / 2;
        if timestamps[mid] <= at {
            assert forall|j: int| 0 <= j < mid + 1 implies timestamps@[j] <= at by {
                assert(timestamps@[j] <= timestamps@[mid as int]);
            }
            lo = mid + 1;
        } else {
            assert forall|j: int| mid <= j < n implies timestamps@[j] > at by {
                assert(timestamps@[mid as int] <= timestamps@[j]);
            }
            hi = mid;
        }
    }
    proof {
        lemma_reached_is_partition_point(timestamps@, at as int, lo as int);
    }
    let k = lo;
    if k == n {
        if timestamps[n - 1] == at || !repeat {
            Sample::Finished
        } else {
            Sample::Segment { start: n - 1, end: 0, num: at as i128, den: timestamps[0] as i128 }
        }
    } else if k == 0 {
        if repeat {
            Sample::Segment { start: n - 1, end: 0, num: at as i128, den: timestamps[0] as i128 }
        } else {
            Sample::NotStarted
        }
    } else {
        Sample::Segment {
            start: k - 1,
            end: k,
            num: (at as i128) - (timestamps[k - 1] as i128),
            den: (timestamps[k] as i128) - (timestamps[k - 1] as i128),
        }
    }
}

} // verus!
