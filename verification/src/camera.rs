//! Where a camera renders to, and which cameras a frame has to see to.

use vstd::prelude::*;

verus! {

/// Identifies a window.
#[derive(Clone, Copy, Debug, PartialEq, Eq, Structural, Hash)]
pub struct WindowId(pub u128);

impl WindowId {
    /// The window that an application opens first.
    pub fn primary() -> (id: Self)
        ensures
            id == WindowId(0),
    {
        WindowId(0)
    }
}

/// Identifies an image.
#[derive(Clone, Copy, Debug, PartialEq, Eq, Structural, Hash)]
pub struct ImageHandle(pub u64);

/// What a camera renders to.
#[derive(Clone, Copy, Debug, PartialEq, Eq, Structural, Hash)]
pub enum RenderTarget {
    /// Window to which the camera's view is rendered.
    Window(WindowId),
    /// Image to which the camera's view is rendered.
    Image(ImageHandle),
}

impl Default for RenderTarget {
    fn default() -> (target: Self)
        ensures
            target == RenderTarget::Window(WindowId(0)),
    {
        RenderTarget::Window(WindowId::primary())
    }
}

impl RenderTarget {
    /// Whether the window or image of this target is among those that
    /// changed.
    pub open spec fn changed_in(&self, windows: Seq<WindowId>, images: Seq<ImageHandle>) -> bool {
        match self {
            RenderTarget::Window(id) => windows.contains(*id),
            RenderTarget::Image(handle) => images.contains(*handle),
        }
    }

    /// The window, if the target is one.
    pub fn get_window(&self) -> (window: Option<WindowId>)
        ensures
            window == match self {
                RenderTarget::Window(id) => Some(*id),
                RenderTarget::Image(_) => None,
            },
    {
        if let RenderTarget::Window(id) = self {
            Some(*id)
        } else {
            None
        }
    }

    /// The image, if the target is one.
    pub fn get_image(&self) -> (image: Option<ImageHandle>)
        ensures
            image == match self {
                RenderTarget::Window(_) => None,
                RenderTarget::Image(handle) => Some(*handle),
            },
    {
        if let RenderTarget::Image(handle) = self {
            Some(*handle)
        } else {
            None
        }
    }

    /// Checks if this render target is contained in the given changed
    /// windows or images.
    pub fn is_changed(
        &self,
        changed_window_ids: &Vec<WindowId>,
        changed_image_handles: &Vec<ImageHandle>,
    ) -> (changed: bool)
        ensures
            changed == self.changed_in(changed_window_ids@, changed_image_handles@),
    {
        match self {
            RenderTarget::Window(id) => holds(changed_window_ids, *id),
            RenderTarget::Image(handle) => holds_image(changed_image_handles, *handle),
        }
    }
}

/// How the distance of an object from the camera is worked out, for the
/// order in which objects are drawn.
#[derive(Clone, Copy, Debug, PartialEq, Eq, Structural)]
pub enum DepthCalculation {
    /// Pythagorean distance; works everywhere, more expensive to compute.
    Distance,
    /// Optimization for 2D; assuming the camera points towards -Z.
    ZDifference,
}

impl Default for DepthCalculation {
    fn default() -> (depth: Self)
        ensures
            depth == DepthCalculation::Distance,
    {
        DepthCalculation::Distance
    }
}

/// `seen` with the windows of `events` added behind it, the latest event
/// first, each window once.
pub open spec fn latest_first(seen: Seq<WindowId>, events: Seq<WindowId>) -> Seq<WindowId>
    decreases events.len(),
{
    if events.len() == 0 {
        seen
    } else if seen.contains(events.last()) {
        latest_first(seen, events.drop_last())
    } else {
        latest_first(seen.push(events.last()), events.drop_last())
    }
}

/// Whether no window stands twice in `ids`.
pub open spec fn each_once(ids: Seq<WindowId>) -> bool {
    forall|i: int, j: int| 0 <= i < j < ids.len() ==> ids[i] != ids[j]
}

/// Going through events adds no window twice, loses none that was seen, and
/// holds in the end what was seen or stands among the events, and nothing
/// else.
pub proof fn lemma_latest_first(seen: Seq<WindowId>, events: Seq<WindowId>)
    requires
        each_once(seen),
    ensures
        each_once(latest_first(seen, events)),
        forall|id: WindowId|
            latest_first(seen, events).contains(id) <==> seen.contains(id) || events.contains(id),
    decreases events.len(),
{
    if events.len() > 0 {
        let last = events.last();
        let rest = events.drop_last();
        let next = if seen.contains(last) {
            seen
        } else {
            seen.push(last)
        };
        assert(each_once(next)) by {
            assert forall|i: int, j: int| 0 <= i < j < next.len() implies next[i] != next[j] by {
                if j == seen.len() {
                    assert(seen[i] == next[i]);
                    assert(seen.contains(seen[i]));
                }
            }
        }
        lemma_latest_first(next, rest);
        assert forall|id: WindowId|
            latest_first(seen, events).contains(id) <==> seen.contains(id) || events.contains(
                id,
            ) by {
            if seen.contains(id) {
                let k = choose|k: int| 0 <= k < seen.len() && seen[k] == id;
                assert(next[k] == id);
            }
            if next.contains(id) && !seen.contains(id) {
                let k = choose|k: int| 0 <= k < next.len() && next[k] == id;
                assert(k == seen.len());
                assert(events[events.len() - 1] == id);
            }
            if rest.contains(id) {
                let k = choose|k: int| 0 <= k < rest.len() && rest[k] == id;
                assert(events[k] == id);
            }
            if events.contains(id) {
                let k = choose|k: int| 0 <= k < events.len() && events[k] == id;
                if k < rest.len() {
                    assert(rest[k] == id);
                } else {
                    assert(id == last);
                    assert(next.contains(last)) by {
                        if !seen.contains(last) {
                            assert(next[seen.len() as int] == last);
                        }
                    }
                }
            }
        }
    }
}

/// Whether `list` holds `id`.
fn holds(list: &Vec<WindowId>, id: WindowId) -> (found: bool)
    ensures
        found == list@.contains(id),
{
    let n = list.len();
    let mut i: usize = 0;
    while i < n
        invariant
            n == list@.len(),
            i <= n,
            forall|j: int| 0 <= j < i ==> list@[j] != id,
        decreases n - i,
    {
        if list[i] == id {
            return true;
        }
        i += 1;
    }
    false
}

/// Whether `list` holds `handle`.
fn holds_image(list: &Vec<ImageHandle>, handle: ImageHandle) -> (found: bool)
    ensures
        found == list@.contains(handle),
{
    let n = list.len();
    let mut i: usize = 0;
    while i < n
        invariant
            n == list@.len(),
            i <= n,
            forall|j: int| 0 <= j < i ==> list@[j] != handle,
        decreases n - i,
    {
        if list[i] == handle {
            return true;
        }
        i += 1;
    }
    false
}

/// Adds the windows of `events` to `changed`, the latest event first, each
/// window once.
fn note_latest_first(changed: &mut Vec<WindowId>, events: &Vec<WindowId>)
    ensures
        final(changed)@ == latest_first(old(changed)@, events@),
{
    let mut i: usize = events.len();
    assert(events@.take(i as int) =~= events@);
    while i > 0
        invariant
            i <= events@.len(),
            latest_first(old(changed)@, events@) == latest_first(changed@, events@.take(i as int)),
        decreases i,
    {
        let ghost left = events@.take(i as int);
        assert(left.last() == events@[i - 1]);
        assert(left.drop_last() =~= events@.take(i - 1));
        i -= 1;
        if !holds(changed, events[i]) {
            changed.push(events[i]);
        }
    }
}

/// The windows whose cameras have to follow a change of size: those that
/// were resized, the latest first, then those that were created, the latest
/// first, each window once.
pub fn changed_windows(resized: &Vec<WindowId>, created: &Vec<WindowId>) -> (changed: Vec<WindowId>)
    ensures
        changed@ == latest_first(latest_first(Seq::empty(), resized@), created@),
{
    let mut changed: Vec<WindowId> = Vec::new();
    note_latest_first(&mut changed, resized);
    note_latest_first(&mut changed, created);
    changed
}

/// What the frame knows of one camera.
#[derive(Clone, Copy, Debug, PartialEq, Eq, Structural)]
pub struct CameraState {
    /// Where the camera renders to.
    pub target: RenderTarget,
    /// Whether the camera was added since the last frame.
    pub added: bool,
    /// Whether the projection of the camera was changed since the last frame.
    pub projection_changed: bool,
}

impl CameraState {
    /// Whether the projection of the camera has to be worked out anew: its
    /// target changed, or the camera is new, or its projection was changed.
    pub open spec fn is_stale(&self, windows: Seq<WindowId>, images: Seq<ImageHandle>) -> bool {
        self.target.changed_in(windows, images) || self.added || self.projection_changed
    }
}

/// For each camera, whether its projection has to be worked out anew in
/// this frame.
pub fn camera_system(
    resized: &Vec<WindowId>,
    created: &Vec<WindowId>,
    changed_image_handles: &Vec<ImageHandle>,
    cameras: &Vec<CameraState>,
) -> (stale: Vec<bool>)
    ensures
        stale@.len() == cameras@.len(),
        forall|i: int|
            0 <= i < cameras@.len() ==> stale@[i] == (#[trigger] cameras@[i]).is_stale(
                latest_first(latest_first(Seq::empty(), resized@), created@),
                changed_image_handles@,
            ),
{
    let changed_window_ids = changed_windows(resized, created);
    let mut stale: Vec<bool> = Vec::new();
    let n = cameras.len();
    let mut i: usize = 0;
    while i < n
        invariant
            n == cameras@.len(),
            i <= n,
            stale@.len() == i,
            changed_window_ids@ == latest_first(latest_first(Seq::empty(), resized@), created@),
            forall|j: int|
                0 <= j < i ==> stale@[j] == (#[trigger] cameras@[j]).is_stale(
                    changed_window_ids@,
                    changed_image_handles@,
                ),
        decreases n - i,
    {
        let camera = &cameras[i];
        let is_stale = camera.target.is_changed(&changed_window_ids, changed_image_handles)
            || camera.added || camera.projection_changed;
        stale.push(is_stale);
        i += 1;
    }
    stale
}

} // verus!
